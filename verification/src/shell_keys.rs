//! Where a pressed key goes: to the session, the shell, the terminal or the
//! client, and what it does there.

use crate::shell::{SessionScreen, ShellState};
use crate::shortcuts::{shell_shortcut, shortcut_of, ShellShortcut, KEY_ESCAPE, KEY_RETURN};
use vstd::prelude::*;
use vstd::string::*;
use vstd::utf8::encode_utf8;

verus! {

pub const KEY_SPACE: u32 = 0x20;

pub const KEY_BACKSPACE: u32 = 0xff08;

/// The modifiers that are held.
#[derive(Debug, Clone, Copy, PartialEq, Eq, Structural)]
pub struct Modifiers {
    pub logo: bool,
    pub ctrl: bool,
    pub alt: bool,
    pub shift: bool,
}

/// How a key moves the rest screen on.
#[derive(Debug, Clone, Copy, PartialEq, Eq, Structural)]
pub enum RestAdvance {
    Space,
    Character,
    Other,
}

/// What a key does in the built-in terminal.
#[derive(Debug, Clone, Copy, PartialEq, Eq, Structural)]
pub enum TerminalAction {
    Toggle,
    NewTab,
    CloseTab,
    CycleTheme,
    ToggleBlur,
    ToggleTransparency,
    BeginTitleEdit,
    CancelTitleEdit,
    CommitTitle,
    TitleBackspace,
    TitleType(char),
    /// The key's bytes go to the shell, if it has any.
    Send,
    /// The key is taken and does nothing.
    Consume,
}

/// What a shell shortcut does.
#[derive(Debug, Clone, Copy, PartialEq, Eq, Structural)]
pub enum ShortcutAction {
    ToggleTerminal,
    ToggleLauncher,
    ToggleGallery,
    ToggleNotifications,
    ToggleFinder,
    ToggleSettings,
    CycleWindows { reverse: bool },
    SwitchWorkspace { delta: i32 },
    FocusWindow { number: u8 },
    CloseWindow(u64),
    RestoreWindow(u64),
    MinimizeWindow(u64),
    ToggleMaximize(u64),
    ToggleFullscreen(u64),
    DismissOverlay,
    /// The shortcut is taken and does nothing.
    Consume,
}

/// What a pressed key does.
#[derive(Debug, Clone, Copy, PartialEq, Eq, Structural)]
pub enum KeyAction {
    AdvanceRest(RestAdvance),
    SubmitPassword,
    PasswordBackspace,
    PasswordType(char),
    BackToRest,
    SkipSetupStep,
    ContinueSetup,
    Terminal(TerminalAction),
    CloseNotifications,
    ClearNotifications,
    MarkNotificationsRead,
    CloseAppStore,
    AppStoreActivate(usize),
    AppStoreBackspace,
    AppStoreType(char),
    Shortcut(ShortcutAction),
    CloseLauncher,
    LauncherActivate(usize),
    LauncherBackspace,
    LauncherType(char),
    CloseFinder,
    FinderActivate(usize),
    FinderBackspace,
    FinderType(char),
    /// The key is taken and does nothing.
    Consume,
    /// The shell does nothing with the key.
    Ignore,
}

/// The window that shortcuts act on.
#[derive(Debug, Clone, Copy, PartialEq, Eq, Structural)]
pub struct FocusedWindow {
    pub id: u64,
    pub minimized: bool,
}

/// What else decides about a key.
#[derive(Debug, Clone, Copy, PartialEq, Eq, Structural)]
pub struct KeyFacts {
    pub shell: ShellState,
    /// Whether the current setup step is optional and in progress.
    pub setup_step_skippable: bool,
    pub title_editing: bool,
    pub app_store_selected: Option<usize>,
    pub finder_selected: Option<usize>,
    pub focused: Option<FocusedWindow>,
}

// ---- characters ------------------------------------------------------------------------

/// The character of a Latin-1 keysym.
pub open spec fn latin_char(raw: u32) -> Option<char> {
    if 0x20 <= raw <= 0x7e || 0xa0 <= raw <= 0xff {
        Some(raw as char)
    } else {
        None
    }
}

/// Maps a Latin-1 keysym to its character, for text fields and basic terminal
/// input.
pub fn keysym_to_char(raw: u32) -> (c: Option<char>)
    ensures
        c == latin_char(raw),
{
    if (0x20 <= raw && raw <= 0x7e) || (0xa0 <= raw && raw <= 0xff) {
        Some((raw as u8) as char)
    } else {
        None
    }
}

pub open spec fn is_letter_key(raw: u32) -> bool {
    0x61 <= raw <= 0x7a || 0x41 <= raw <= 0x5a
}

/// The control code of a letter: one for A up to 26 for Z.
pub open spec fn control_code(raw: u32) -> u8 {
    if raw >= 0x61 {
        (raw - 0x60) as u8
    } else {
        (raw - 0x40) as u8
    }
}

/// The bytes of a key without Alt.
pub open spec fn plain_key_bytes(raw: u32, shift: bool) -> Option<Seq<u8>> {
    if raw == 0xff0d {
        Some(seq![0x0du8])
    } else if raw == 0xff08 || raw == 0x7f {
        Some(seq![0x7fu8])
    } else if raw == 0xff1b {
        Some(seq![0x1bu8])
    } else if raw == 0xff09 && shift {
        Some(seq![0x1bu8, 0x5bu8, 0x5au8])
    } else if raw == 0xff09 {
        Some(seq![0x09u8])
    } else if raw == 0xff51 {
        Some(seq![0x1bu8, 0x5bu8, 0x44u8])
    } else if raw == 0xff52 {
        Some(seq![0x1bu8, 0x5bu8, 0x41u8])
    } else if raw == 0xff53 {
        Some(seq![0x1bu8, 0x5bu8, 0x43u8])
    } else if raw == 0xff54 {
        Some(seq![0x1bu8, 0x5bu8, 0x42u8])
    } else if raw == 0xff50 {
        Some(seq![0x1bu8, 0x5bu8, 0x48u8])
    } else if raw == 0xff57 {
        Some(seq![0x1bu8, 0x5bu8, 0x46u8])
    } else if raw == 0xffff {
        Some(seq![0x1bu8, 0x5bu8, 0x33u8, 0x7eu8])
    } else {
        match latin_char(raw) {
            Some(c) => Some(encode_utf8(seq![c])),
            None => None,
        }
    }
}

/// The bytes that a key sends to a shell. Alt puts an escape in front of those
/// that do not begin with one; Ctrl with a letter is its control code.
pub open spec fn key_bytes(raw: u32, ctrl: bool, alt: bool, shift: bool) -> Option<Seq<u8>> {
    if ctrl && is_letter_key(raw) {
        Some(seq![control_code(raw)])
    } else {
        match plain_key_bytes(raw, shift) {
            Some(bytes) => if alt && !(bytes.len() > 0 && bytes[0] == 0x1b) {
                Some(seq![0x1bu8] + bytes)
            } else {
                Some(bytes)
            },
            None => None,
        }
    }
}

pub open spec fn bytes_view(bytes: Option<Vec<u8>>) -> Option<Seq<u8>> {
    match bytes {
        Some(b) => Some(b@),
        None => None,
    }
}

fn escape_sequence(a: u8) -> (bytes: Vec<u8>)
    ensures
        bytes@ == seq![0x1bu8, 0x5bu8, a],
{
    let mut bytes: Vec<u8> = Vec::new();
    bytes.push(0x1b);
    bytes.push(0x5b);
    bytes.push(a);
    assert(bytes@ =~= seq![0x1bu8, 0x5bu8, a]);
    bytes
}

fn one_byte(a: u8) -> (bytes: Vec<u8>)
    ensures
        bytes@ == seq![a],
{
    let mut bytes: Vec<u8> = Vec::new();
    bytes.push(a);
    assert(bytes@ =~= seq![a]);
    bytes
}

fn char_bytes(c: char) -> (bytes: Vec<u8>)
    ensures
        bytes@ == encode_utf8(seq![c]),
{
    let mut text = String::new();
    text.push(c);
    assert(text@ =~= seq![c]);
    let encoded = text.as_str().as_bytes();
    let mut bytes: Vec<u8> = Vec::new();
    let mut i: usize = 0;
    while i < encoded.len()
        invariant
            i <= encoded.len(),
            bytes@ == encoded@.subrange(0, i as int),
        decreases encoded.len() - i,
    {
        bytes.push(encoded[i]);
        assert(encoded@.subrange(0, i + 1) =~= encoded@.subrange(0, i as int).push(
            encoded@[i as int],
        ));
        i += 1;
    }
    assert(encoded@.subrange(0, i as int) =~= encoded@);
    bytes
}

/// Encodes the keys that an interactive shell needs. The terminal itself
/// decodes UTF-8 and control sequences.
pub fn terminal_key_bytes(raw: u32, ctrl: bool, alt: bool, shift: bool) -> (bytes: Option<Vec<u8>>)
    ensures
        bytes_view(bytes) == key_bytes(raw, ctrl, alt, shift),
{
    if ctrl && ((0x61 <= raw && raw <= 0x7a) || (0x41 <= raw && raw <= 0x5a)) {
        let code: u8 = if raw >= 0x61 {
            (raw - 0x60) as u8
        } else {
            (raw - 0x40) as u8
        };
        return Some(one_byte(code));
    }
    let plain: Vec<u8> = if raw == 0xff0d {
        one_byte(0x0d)
    } else if raw == 0xff08 || raw == 0x7f {
        one_byte(0x7f)
    } else if raw == 0xff1b {
        one_byte(0x1b)
    } else if raw == 0xff09 {
        if shift {
            escape_sequence(0x5a)
        } else {
            one_byte(0x09)
        }
    } else if raw == 0xff51 {
        escape_sequence(0x44)
    } else if raw == 0xff52 {
        escape_sequence(0x41)
    } else if raw == 0xff53 {
        escape_sequence(0x43)
    } else if raw == 0xff54 {
        escape_sequence(0x42)
    } else if raw == 0xff50 {
        escape_sequence(0x48)
    } else if raw == 0xff57 {
        escape_sequence(0x46)
    } else if raw == 0xffff {
        let mut bytes = escape_sequence(0x33);
        bytes.push(0x7e);
        assert(bytes@ =~= seq![0x1bu8, 0x5bu8, 0x33u8, 0x7eu8]);
        bytes
    } else {
        match keysym_to_char(raw) {
            Some(c) => char_bytes(c),
            None => return None,
        }
    };
    assert(plain_key_bytes(raw, shift) == Some(plain@));
    let mut bytes = plain;
    if alt && !(bytes.len() > 0 && bytes[0] == 0x1b) {
        let ghost before = bytes@;
        bytes.insert(0, 0x1b);
        assert(bytes@ =~= seq![0x1bu8] + before);
    }
    Some(bytes)
}

// ---- the filter ------------------------------------------------------------------------

/// Whether a key is kept from the client.
pub open spec fn intercepted(shell: ShellState, pressed: bool, raw: u32, mods: Modifiers) -> bool {
    ||| shell.terminal_open
    ||| pressed && mods.logo && raw == KEY_RETURN
    ||| pressed && (match shortcut_of(raw, mods.logo, mods.ctrl, mods.alt, mods.shift) {
        None => false,
        Some(ShellShortcut::DismissOverlay) => shell.top_overlay() is Some,
        Some(_) => true,
    })
}

/// Decides, before a key is forwarded, whether it is kept from the client.
pub fn intercepts_key(shell: &ShellState, pressed: bool, raw: u32, mods: Modifiers) -> (yes: bool)
    ensures
        yes == intercepted(*shell, pressed, raw, mods),
{
    if shell.terminal_open {
        return true;
    }
    if !pressed {
        return false;
    }
    if mods.logo && raw == KEY_RETURN {
        return true;
    }
    match shell_shortcut(raw, mods.logo, mods.ctrl, mods.alt, mods.shift) {
        None => false,
        Some(ShellShortcut::DismissOverlay) => shell.overlay_open(),
        Some(_) => true,
    }
}

// ---- routing ---------------------------------------------------------------------------

pub open spec fn rest_action(raw: u32) -> KeyAction {
    KeyAction::AdvanceRest(
        if raw == KEY_SPACE || raw == KEY_RETURN {
            RestAdvance::Space
        } else if 0x21 <= raw <= 0x7e {
            RestAdvance::Character
        } else {
            RestAdvance::Other
        },
    )
}

pub open spec fn lock_action(raw: u32) -> KeyAction {
    if raw == KEY_RETURN {
        KeyAction::SubmitPassword
    } else if raw == KEY_BACKSPACE {
        KeyAction::PasswordBackspace
    } else if raw == KEY_ESCAPE {
        KeyAction::BackToRest
    } else {
        match latin_char(raw) {
            Some(c) => KeyAction::PasswordType(c),
            None => KeyAction::Consume,
        }
    }
}

pub open spec fn setup_action(raw: u32, skippable: bool) -> KeyAction {
    if raw == KEY_ESCAPE && skippable {
        KeyAction::SkipSetupStep
    } else if raw == KEY_RETURN || raw == KEY_SPACE {
        KeyAction::ContinueSetup
    } else {
        KeyAction::Consume
    }
}

/// Whether `raw` is a letter, given in lower case, pressed with Ctrl and Shift.
pub open spec fn bound(raw: u32, mods: Modifiers, lower: u32) -> bool {
    mods.ctrl && mods.shift && (raw == lower || raw == lower - 32)
}

pub open spec fn terminal_action(raw: u32, mods: Modifiers, title_editing: bool) -> TerminalAction {
    if mods.logo && raw == KEY_RETURN {
        TerminalAction::Toggle
    } else if bound(raw, mods, 0x74) {
        TerminalAction::NewTab
    } else if bound(raw, mods, 0x77) {
        TerminalAction::CloseTab
    } else if bound(raw, mods, 0x70) {
        TerminalAction::CycleTheme
    } else if bound(raw, mods, 0x67) {
        TerminalAction::ToggleBlur
    } else if bound(raw, mods, 0x61) {
        TerminalAction::ToggleTransparency
    } else if title_editing {
        if raw == KEY_ESCAPE {
            TerminalAction::CancelTitleEdit
        } else if raw == KEY_RETURN {
            TerminalAction::CommitTitle
        } else if raw == KEY_BACKSPACE || raw == 0x7f {
            TerminalAction::TitleBackspace
        } else {
            match latin_char(raw) {
                Some(c) => TerminalAction::TitleType(c),
                None => TerminalAction::Consume,
            }
        }
    } else if bound(raw, mods, 0x65) {
        TerminalAction::BeginTitleEdit
    } else if mods.logo {
        TerminalAction::Consume
    } else {
        TerminalAction::Send
    }
}

fn is_bound(raw: u32, mods: Modifiers, lower: u32) -> (yes: bool)
    requires
        lower >= 32,
    ensures
        yes == bound(raw, mods, lower),
{
    mods.ctrl && mods.shift && (raw == lower || raw == lower - 32)
}

/// Terminal shortcuts, the title editor, and keys for the shell.
pub fn process_terminal_keyboard(raw: u32, mods: Modifiers, title_editing: bool) -> (action:
    TerminalAction)
    ensures
        action == terminal_action(raw, mods, title_editing),
{
    if mods.logo && raw == KEY_RETURN {
        return TerminalAction::Toggle;
    }
    if is_bound(raw, mods, 0x74) {
        return TerminalAction::NewTab;
    }
    if is_bound(raw, mods, 0x77) {
        return TerminalAction::CloseTab;
    }
    if is_bound(raw, mods, 0x70) {
        return TerminalAction::CycleTheme;
    }
    if is_bound(raw, mods, 0x67) {
        return TerminalAction::ToggleBlur;
    }
    if is_bound(raw, mods, 0x61) {
        return TerminalAction::ToggleTransparency;
    }
    if title_editing {
        if raw == KEY_ESCAPE {
            return TerminalAction::CancelTitleEdit;
        }
        if raw == KEY_RETURN {
            return TerminalAction::CommitTitle;
        }
        if raw == KEY_BACKSPACE || raw == 0x7f {
            return TerminalAction::TitleBackspace;
        }
        return match keysym_to_char(raw) {
            Some(c) => TerminalAction::TitleType(c),
            None => TerminalAction::Consume,
        };
    }
    if is_bound(raw, mods, 0x65) {
        return TerminalAction::BeginTitleEdit;
    }
    if mods.logo {
        return TerminalAction::Consume;
    }
    TerminalAction::Send
}

/// The number of the tab that "close tab" closes.
pub open spec fn closing_id(active: Option<u64>) -> u64 {
    match active {
        Some(id) => id,
        None => 0,
    }
}

/// The tab that "close tab" closes: the first with the number of the active
/// one; without an active tab, the first with number zero.
pub fn tab_to_close(tabs: &Vec<u64>, active: Option<u64>) -> (index: Option<usize>)
    ensures
        match index {
            Some(i) => i < tabs@.len() && tabs@[i as int] == closing_id(active) && (forall|k: int|
                0 <= k < i ==> tabs@[k] != closing_id(active)),
            None => forall|k: int| 0 <= k < tabs@.len() ==> tabs@[k] != closing_id(active),
        },
{
    let wanted: u64 = match active {
        Some(id) => id,
        None => 0,
    };
    let mut i: usize = 0;
    while i < tabs.len()
        invariant
            i <= tabs.len(),
            wanted == closing_id(active),
            forall|k: int| 0 <= k < i ==> tabs@[k] != wanted,
        decreases tabs.len() - i,
    {
        if tabs[i] == wanted {
            return Some(i);
        }
        i += 1;
    }
    None
}

pub open spec fn notification_action(raw: u32) -> KeyAction {
    if raw == KEY_ESCAPE {
        KeyAction::CloseNotifications
    } else if raw == 0x63 || raw == 0x43 {
        KeyAction::ClearNotifications
    } else if raw == KEY_RETURN {
        KeyAction::MarkNotificationsRead
    } else {
        KeyAction::Consume
    }
}

pub open spec fn app_store_action(raw: u32, selected: Option<usize>) -> KeyAction {
    if raw == KEY_ESCAPE {
        KeyAction::CloseAppStore
    } else if raw == KEY_RETURN {
        KeyAction::AppStoreActivate(
            match selected {
                Some(index) => index,
                None => 0,
            },
        )
    } else if raw == KEY_BACKSPACE {
        KeyAction::AppStoreBackspace
    } else {
        match latin_char(raw) {
            Some(c) => KeyAction::AppStoreType(c),
            None => KeyAction::Consume,
        }
    }
}

pub open spec fn launcher_action(raw: u32) -> KeyAction {
    if raw == KEY_ESCAPE {
        KeyAction::CloseLauncher
    } else if raw == KEY_RETURN {
        KeyAction::LauncherActivate(0)
    } else if raw == KEY_BACKSPACE {
        KeyAction::LauncherBackspace
    } else {
        match latin_char(raw) {
            Some(c) => KeyAction::LauncherType(c),
            None => KeyAction::Consume,
        }
    }
}

pub open spec fn finder_action(raw: u32, selected: Option<usize>) -> KeyAction {
    if raw == KEY_ESCAPE {
        KeyAction::CloseFinder
    } else if raw == KEY_RETURN {
        match selected {
            Some(index) => KeyAction::FinderActivate(index),
            None => KeyAction::Consume,
        }
    } else if raw == KEY_BACKSPACE {
        KeyAction::FinderBackspace
    } else {
        match latin_char(raw) {
            Some(c) => KeyAction::FinderType(c),
            None => KeyAction::Consume,
        }
    }
}

/// What a shortcut does: window shortcuts act on the focused window, and a
/// modal surface owns window navigation while it is open.
pub open spec fn shortcut_action(
    shell: ShellState,
    focused: Option<FocusedWindow>,
    shortcut: ShellShortcut,
) -> ShortcutAction {
    match shortcut {
        ShellShortcut::ToggleTerminal => ShortcutAction::ToggleTerminal,
        ShellShortcut::ToggleLauncher => ShortcutAction::ToggleLauncher,
        ShellShortcut::ToggleGallery => ShortcutAction::ToggleGallery,
        ShellShortcut::ToggleNotifications => ShortcutAction::ToggleNotifications,
        ShellShortcut::ToggleFinder => ShortcutAction::ToggleFinder,
        ShellShortcut::ToggleSettings => ShortcutAction::ToggleSettings,
        ShellShortcut::CycleWindows { reverse } => if shell.holds_navigation() {
            ShortcutAction::Consume
        } else {
            ShortcutAction::CycleWindows { reverse }
        },
        ShellShortcut::SwitchWorkspace { delta } => ShortcutAction::SwitchWorkspace { delta },
        ShellShortcut::FocusWindow { number } => ShortcutAction::FocusWindow { number },
        ShellShortcut::CloseWindow => match focused {
            Some(window) => ShortcutAction::CloseWindow(window.id),
            None => ShortcutAction::Consume,
        },
        ShellShortcut::MinimizeWindow => match focused {
            Some(window) => if window.minimized {
                ShortcutAction::RestoreWindow(window.id)
            } else {
                ShortcutAction::MinimizeWindow(window.id)
            },
            None => ShortcutAction::Consume,
        },
        ShellShortcut::ToggleMaximize => match focused {
            Some(window) => ShortcutAction::ToggleMaximize(window.id),
            None => ShortcutAction::Consume,
        },
        ShellShortcut::ToggleFullscreen => match focused {
            Some(window) => ShortcutAction::ToggleFullscreen(window.id),
            None => ShortcutAction::Consume,
        },
        ShellShortcut::DismissOverlay => ShortcutAction::DismissOverlay,
    }
}

pub fn handle_shell_shortcut(
    shell: &ShellState,
    focused: Option<FocusedWindow>,
    shortcut: ShellShortcut,
) -> (action: ShortcutAction)
    ensures
        action == shortcut_action(*shell, focused, shortcut),
{
    match shortcut {
        ShellShortcut::ToggleTerminal => ShortcutAction::ToggleTerminal,
        ShellShortcut::ToggleLauncher => ShortcutAction::ToggleLauncher,
        ShellShortcut::ToggleGallery => ShortcutAction::ToggleGallery,
        ShellShortcut::ToggleNotifications => ShortcutAction::ToggleNotifications,
        ShellShortcut::ToggleFinder => ShortcutAction::ToggleFinder,
        ShellShortcut::ToggleSettings => ShortcutAction::ToggleSettings,
        ShellShortcut::CycleWindows { reverse } => if shell.navigation_held() {
            ShortcutAction::Consume
        } else {
            ShortcutAction::CycleWindows { reverse }
        },
        ShellShortcut::SwitchWorkspace { delta } => ShortcutAction::SwitchWorkspace { delta },
        ShellShortcut::FocusWindow { number } => ShortcutAction::FocusWindow { number },
        ShellShortcut::DismissOverlay => ShortcutAction::DismissOverlay,
        ShellShortcut::CloseWindow
        | ShellShortcut::MinimizeWindow
        | ShellShortcut::ToggleMaximize
        | ShellShortcut::ToggleFullscreen => match focused {
            None => ShortcutAction::Consume,
            Some(window) => match shortcut {
                ShellShortcut::CloseWindow => ShortcutAction::CloseWindow(window.id),
                ShellShortcut::MinimizeWindow => if window.minimized {
                    ShortcutAction::RestoreWindow(window.id)
                } else {
                    ShortcutAction::MinimizeWindow(window.id)
                },
                ShellShortcut::ToggleMaximize => ShortcutAction::ToggleMaximize(window.id),
                _ => ShortcutAction::ToggleFullscreen(window.id),
            },
        },
    }
}

/// What a pressed key does. The session owns keys first, then the welcome,
/// setup and the terminal; then the notification centre and the gallery,
/// unless the logo key is held; then the shortcuts; and last the text fields
/// of the launcher and of Finder.
pub open spec fn key_action(facts: KeyFacts, raw: u32, mods: Modifiers) -> KeyAction {
    let shell = facts.shell;
    if shell.session == SessionScreen::Rest {
        rest_action(raw)
    } else if shell.session == SessionScreen::Lock {
        lock_action(raw)
    } else if shell.welcome is Some {
        KeyAction::Consume
    } else if shell.setup_open {
        setup_action(raw, facts.setup_step_skippable)
    } else if shell.terminal_open {
        KeyAction::Terminal(terminal_action(raw, mods, facts.title_editing))
    } else if shell.notifications_open && !mods.logo {
        notification_action(raw)
    } else if shell.app_store_open && !mods.logo {
        app_store_action(raw, facts.app_store_selected)
    } else {
        match shortcut_of(raw, mods.logo, mods.ctrl, mods.alt, mods.shift) {
            Some(shortcut) => KeyAction::Shortcut(
                shortcut_action(shell, facts.focused, shortcut),
            ),
            None => if shell.launcher_open && !mods.logo {
                launcher_action(raw)
            } else if shell.finder_open && !mods.logo {
                finder_action(raw, facts.finder_selected)
            } else {
                KeyAction::Ignore
            },
        }
    }
}

fn lock_key(raw: u32) -> (action: KeyAction)
    ensures
        action == lock_action(raw),
{
    if raw == KEY_RETURN {
        return KeyAction::SubmitPassword;
    }
    if raw == KEY_BACKSPACE {
        return KeyAction::PasswordBackspace;
    }
    if raw == KEY_ESCAPE {
        return KeyAction::BackToRest;
    }
    match keysym_to_char(raw) {
        Some(c) => KeyAction::PasswordType(c),
        None => KeyAction::Consume,
    }
}

fn app_store_key(raw: u32, selected: Option<usize>) -> (action: KeyAction)
    ensures
        action == app_store_action(raw, selected),
{
    if raw == KEY_ESCAPE {
        return KeyAction::CloseAppStore;
    }
    if raw == KEY_RETURN {
        return KeyAction::AppStoreActivate(
            match selected {
                Some(index) => index,
                None => 0,
            },
        );
    }
    if raw == KEY_BACKSPACE {
        return KeyAction::AppStoreBackspace;
    }
    match keysym_to_char(raw) {
        Some(c) => KeyAction::AppStoreType(c),
        None => KeyAction::Consume,
    }
}

fn launcher_key(raw: u32) -> (action: KeyAction)
    ensures
        action == launcher_action(raw),
{
    if raw == KEY_ESCAPE {
        return KeyAction::CloseLauncher;
    }
    if raw == KEY_RETURN {
        return KeyAction::LauncherActivate(0);
    }
    if raw == KEY_BACKSPACE {
        return KeyAction::LauncherBackspace;
    }
    match keysym_to_char(raw) {
        Some(c) => KeyAction::LauncherType(c),
        None => KeyAction::Consume,
    }
}

fn finder_key(raw: u32, selected: Option<usize>) -> (action: KeyAction)
    ensures
        action == finder_action(raw, selected),
{
    if raw == KEY_ESCAPE {
        return KeyAction::CloseFinder;
    }
    if raw == KEY_RETURN {
        return match selected {
            Some(index) => KeyAction::FinderActivate(index),
            None => KeyAction::Consume,
        };
    }
    if raw == KEY_BACKSPACE {
        return KeyAction::FinderBackspace;
    }
    match keysym_to_char(raw) {
        Some(c) => KeyAction::FinderType(c),
        None => KeyAction::Consume,
    }
}

/// Resolves a pressed key.
pub fn process_keyboard(facts: &KeyFacts, raw: u32, mods: Modifiers) -> (action: KeyAction)
    ensures
        action == key_action(*facts, raw, mods),
{
    match facts.shell.session {
        SessionScreen::Rest => {
            let advance = if raw == KEY_SPACE || raw == KEY_RETURN {
                RestAdvance::Space
            } else if 0x21 <= raw && raw <= 0x7e {
                RestAdvance::Character
            } else {
                RestAdvance::Other
            };
            return KeyAction::AdvanceRest(advance);
        },
        SessionScreen::Lock => return lock_key(raw),
        _ => {},
    }
    if facts.shell.welcome.is_some() {
        return KeyAction::Consume;
    }
    if facts.shell.setup_open {
        if raw == KEY_ESCAPE && facts.setup_step_skippable {
            return KeyAction::SkipSetupStep;
        }
        if raw == KEY_RETURN || raw == KEY_SPACE {
            return KeyAction::ContinueSetup;
        }
        return KeyAction::Consume;
    }
    if facts.shell.terminal_open {
        return KeyAction::Terminal(process_terminal_keyboard(raw, mods, facts.title_editing));
    }
    if facts.shell.notifications_open && !mods.logo {
        if raw == KEY_ESCAPE {
            return KeyAction::CloseNotifications;
        }
        if raw == 0x63 || raw == 0x43 {
            return KeyAction::ClearNotifications;
        }
        if raw == KEY_RETURN {
            return KeyAction::MarkNotificationsRead;
        }
        return KeyAction::Consume;
    }
    if facts.shell.app_store_open && !mods.logo {
        return app_store_key(raw, facts.app_store_selected);
    }
    match shell_shortcut(raw, mods.logo, mods.ctrl, mods.alt, mods.shift) {
        Some(shortcut) => {
            return KeyAction::Shortcut(
                handle_shell_shortcut(&facts.shell, facts.focused, shortcut),
            );
        },
        None => {},
    }
    if facts.shell.launcher_open && !mods.logo {
        return launcher_key(raw);
    }
    if facts.shell.finder_open && !mods.logo {
        return finder_key(raw, facts.finder_selected);
    }
    KeyAction::Ignore
}

/// Whether what an action reports decides if a frame is needed.
pub open spec fn action_reports(action: KeyAction) -> bool {
    match action {
        KeyAction::AdvanceRest(_) | KeyAction::SkipSetupStep | KeyAction::ContinueSetup => true,
        KeyAction::AppStoreActivate(_) => true,
        KeyAction::LauncherActivate(_) | KeyAction::FinderActivate(_) => true,
        KeyAction::Terminal(terminal) => match terminal {
            TerminalAction::NewTab | TerminalAction::CloseTab | TerminalAction::CycleTheme => true,
            TerminalAction::ToggleBlur | TerminalAction::ToggleTransparency => true,
            _ => false,
        },
        KeyAction::Shortcut(shortcut) => match shortcut {
            ShortcutAction::CycleWindows { reverse: _ } => true,
            ShortcutAction::FocusWindow { number: _ } => true,
            ShortcutAction::DismissOverlay => true,
            _ => false,
        },
        _ => false,
    }
}

/// Whether an action of a key asks for a frame.
pub open spec fn key_asks(action: KeyAction, answer: bool) -> bool {
    if action_reports(action) {
        answer
    } else {
        action != KeyAction::Ignore
    }
}

/// Whether a pressed key asks for a frame, once its action reported `answer`.
/// A key that is released asks for none.
pub fn key_redraws(action: KeyAction, answer: bool) -> (redraw: bool)
    ensures
        redraw == key_asks(action, answer),
{
    match action {
        KeyAction::AdvanceRest(_)
        | KeyAction::SkipSetupStep
        | KeyAction::ContinueSetup
        | KeyAction::AppStoreActivate(_)
        | KeyAction::LauncherActivate(_)
        | KeyAction::FinderActivate(_) => answer,
        KeyAction::Terminal(terminal) => match terminal {
            TerminalAction::NewTab
            | TerminalAction::CloseTab
            | TerminalAction::CycleTheme
            | TerminalAction::ToggleBlur
            | TerminalAction::ToggleTransparency => answer,
            _ => true,
        },
        KeyAction::Shortcut(shortcut) => match shortcut {
            ShortcutAction::CycleWindows { reverse: _ }
            | ShortcutAction::FocusWindow { number: _ }
            | ShortcutAction::DismissOverlay => answer,
            _ => true,
        },
        KeyAction::Ignore => false,
        _ => true,
    }
}

// ---- laws ------------------------------------------------------------------------------

/// A resting or locked session takes every key for itself: none opens, closes
/// or types into anything behind it.
pub proof fn a_locked_session_takes_every_key(facts: KeyFacts, raw: u32, mods: Modifiers)
    requires
        facts.shell.locked_away(),
    ensures
        match key_action(facts, raw, mods) {
            KeyAction::AdvanceRest(_) => facts.shell.session == SessionScreen::Rest,
            KeyAction::SubmitPassword
            | KeyAction::PasswordBackspace
            | KeyAction::PasswordType(_)
            | KeyAction::BackToRest
            | KeyAction::Consume => facts.shell.session == SessionScreen::Lock,
            _ => false,
        },
{
}

/// While setup is open, no key reaches anything but setup.
pub proof fn setup_owns_the_keyboard(facts: KeyFacts, raw: u32, mods: Modifiers)
    requires
        facts.shell.setup_open,
        !facts.shell.locked_away(),
    ensures
        match key_action(facts, raw, mods) {
            KeyAction::SkipSetupStep | KeyAction::ContinueSetup | KeyAction::Consume => true,
            _ => false,
        },
{
}

/// While the terminal is open no key is forwarded to a client, whether it is
/// pressed or released.
pub proof fn the_terminal_keeps_keys_from_clients(
    shell: ShellState,
    pressed: bool,
    raw: u32,
    mods: Modifiers,
)
    requires
        shell.terminal_open,
    ensures
        intercepted(shell, pressed, raw, mods),
{
}

/// A shortcut that the shell acts on is never forwarded to a client as well.
pub proof fn handled_shortcuts_are_not_forwarded(facts: KeyFacts, raw: u32, mods: Modifiers)
    requires
        key_action(facts, raw, mods) is Shortcut,
        facts.shell.top_overlay() is Some || key_action(facts, raw, mods)
            != KeyAction::Shortcut(ShortcutAction::DismissOverlay),
    ensures
        intercepted(facts.shell, true, raw, mods),
{
}

/// Whether a keysym writes the character: those of Latin-1 that can be printed
/// write the character of their own number.
pub open spec fn writes(raw: u32, c: char) -> bool {
    raw == c as u32 && (' ' <= c <= '~' || '\u{a0}' <= c <= '\u{ff}')
}

/// A keysym writes a character exactly where it is that character's number and
/// the character is a printable one of Latin-1.
pub proof fn keys_write_their_character(raw: u32, c: char)
    ensures
        latin_char(raw) == Some(c) <==> writes(raw, c),
        latin_char(raw) is None <==> raw < 0x20 || 0x7e < raw < 0xa0 || raw > 0xff,
{
}

/// What keys do while the session rests: every key moves it on, space and
/// Return in their own way and other printable ASCII in another.
pub proof fn keys_of_the_rest_screen(facts: KeyFacts, raw: u32, mods: Modifiers)
    requires
        facts.shell.session == SessionScreen::Rest,
    ensures
        ({
            let action = key_action(facts, raw, mods);
            &&& action == KeyAction::AdvanceRest(RestAdvance::Space) <==> raw == 0x20 || raw
                == 0xff0d
            &&& action == KeyAction::AdvanceRest(RestAdvance::Character) <==> 0x21 <= raw <= 0x7e
            &&& action == KeyAction::AdvanceRest(RestAdvance::Other) <==> raw < 0x20 || (raw > 0x7e
                && raw != 0xff0d)
        }),
{
}

/// What keys do at the password: Return submits it, Backspace takes a character
/// away, Escape goes back, a printable key types its own character and any
/// other key does nothing.
pub proof fn keys_of_the_lock_screen(facts: KeyFacts, raw: u32, mods: Modifiers, c: char)
    requires
        facts.shell.session == SessionScreen::Lock,
    ensures
        ({
            let action = key_action(facts, raw, mods);
            &&& action == KeyAction::SubmitPassword <==> raw == 0xff0d
            &&& action == KeyAction::PasswordBackspace <==> raw == 0xff08
            &&& action == KeyAction::BackToRest <==> raw == 0xff1b
            &&& action == KeyAction::PasswordType(c) <==> writes(raw, c)
            &&& action == KeyAction::Consume <==> raw != 0xff0d && raw != 0xff08 && raw != 0xff1b
                && latin_char(raw) is None
        }),
{
}

/// Whether the keyboard comes as far as the setup: the session is neither at
/// rest nor locked, and no welcome is shown.
pub open spec fn comes_to_setup(shell: ShellState) -> bool {
    shell.session != SessionScreen::Rest && shell.session != SessionScreen::Lock
        && shell.welcome is None
}

/// What keys do in setup: Escape skips a step that can be skipped, and Return
/// and space go on; a welcome takes every key and does nothing.
pub proof fn keys_of_the_setup(facts: KeyFacts, raw: u32, mods: Modifiers)
    ensures
        comes_to_setup(facts.shell) && facts.shell.setup_open ==> {
            let action = key_action(facts, raw, mods);
            &&& action == KeyAction::SkipSetupStep <==> raw == 0xff1b && facts.setup_step_skippable
            &&& action == KeyAction::ContinueSetup <==> raw == 0xff0d || raw == 0x20
            &&& action == KeyAction::Consume <==> raw != 0xff0d && raw != 0x20 && !(raw == 0xff1b
                && facts.setup_step_skippable)
        },
        facts.shell.welcome is Some && facts.shell.session != SessionScreen::Rest
            && facts.shell.session != SessionScreen::Lock ==> key_action(facts, raw, mods)
            == KeyAction::Consume,
{
}

/// Whether a letter, in either case, was pressed with Ctrl and Shift.
pub open spec fn with_ctrl_shift(raw: u32, mods: Modifiers, small: u32, capital: u32) -> bool {
    mods.ctrl && mods.shift && (raw == small || raw == capital)
}

/// What keys do in the terminal: the logo key with Return closes it, and Ctrl
/// and Shift with t, w, p, g and a act on its tabs and looks. While its title is
/// edited the keys write there; else Ctrl and Shift with e begin that, and all
/// other keys without the logo key go to the shell.
pub proof fn keys_of_the_terminal(raw: u32, mods: Modifiers, title_editing: bool, c: char)
    ensures
        ({
            let action = terminal_action(raw, mods, title_editing);
            let toggles = mods.logo && raw == 0xff0d;
            let tab = with_ctrl_shift(raw, mods, 0x74, 0x54);
            let close = with_ctrl_shift(raw, mods, 0x77, 0x57);
            let theme = with_ctrl_shift(raw, mods, 0x70, 0x50);
            let blur = with_ctrl_shift(raw, mods, 0x67, 0x47);
            let clear = with_ctrl_shift(raw, mods, 0x61, 0x41);
            let title = with_ctrl_shift(raw, mods, 0x65, 0x45);
            let taken = toggles || tab || close || theme || blur || clear;
            &&& action == TerminalAction::Toggle <==> toggles
            &&& action == TerminalAction::NewTab <==> tab
            &&& action == TerminalAction::CloseTab <==> close
            &&& action == TerminalAction::CycleTheme <==> theme
            &&& action == TerminalAction::ToggleBlur <==> blur
            &&& action == TerminalAction::ToggleTransparency <==> clear
            &&& action == TerminalAction::CancelTitleEdit <==> title_editing && raw == 0xff1b
            &&& action == TerminalAction::CommitTitle <==> title_editing && raw == 0xff0d
                && !mods.logo
            &&& action == TerminalAction::TitleBackspace <==> title_editing && (raw == 0xff08 || raw
                == 0x7f)
            &&& action == TerminalAction::TitleType(c) <==> title_editing && !taken && writes(raw, c)
            &&& action == TerminalAction::BeginTitleEdit <==> !title_editing && title
            &&& action == TerminalAction::Send <==> !title_editing && !mods.logo && !taken && !title
        }),
{
}

/// Whether the keyboard comes to the surfaces of the shell: it comes to setup,
/// and neither that nor the terminal is open.
pub open spec fn comes_to_surfaces(shell: ShellState) -> bool {
    comes_to_setup(shell) && !shell.setup_open && !shell.terminal_open
}

/// What keys do in the notification centre and in the gallery, without the logo
/// key: Escape closes them; c clears and Return marks read in the first; in the
/// second Return opens what is selected, or the first, and other keys edit the
/// search.
pub proof fn keys_of_notifications_and_gallery(
    facts: KeyFacts,
    raw: u32,
    mods: Modifiers,
    c: char,
    index: usize,
)
    requires
        comes_to_surfaces(facts.shell),
        !mods.logo,
    ensures
        ({
            let action = key_action(facts, raw, mods);
            let centre = facts.shell.notifications_open;
            let gallery = facts.shell.app_store_open && !centre;
            &&& action == KeyAction::CloseNotifications <==> centre && raw == 0xff1b
            &&& action == KeyAction::ClearNotifications <==> centre && (raw == 0x63 || raw == 0x43)
            &&& action == KeyAction::MarkNotificationsRead <==> centre && raw == 0xff0d
            &&& action == KeyAction::CloseAppStore <==> gallery && raw == 0xff1b
            &&& action == KeyAction::AppStoreActivate(index) <==> gallery && raw == 0xff0d && (
            facts.app_store_selected == Some(index) || (facts.app_store_selected is None && index
                == 0))
            &&& action == KeyAction::AppStoreBackspace <==> gallery && raw == 0xff08
            &&& action == KeyAction::AppStoreType(c) <==> gallery && writes(raw, c)
        }),
{
}

/// What keys do in the launcher and the Finder, where no shortcut claims them
/// and no other surface takes them: Escape closes, Return opens the first tile or
/// the selected item, and other keys edit the search. Where neither is open the
/// shell does nothing.
pub proof fn keys_of_launcher_and_finder(
    facts: KeyFacts,
    raw: u32,
    mods: Modifiers,
    c: char,
    index: usize,
)
    requires
        comes_to_surfaces(facts.shell),
        !mods.logo && !facts.shell.notifications_open && !facts.shell.app_store_open,
        shortcut_of(raw, mods.logo, mods.ctrl, mods.alt, mods.shift) is None,
    ensures
        ({
            let action = key_action(facts, raw, mods);
            let launcher = facts.shell.launcher_open;
            let finder = facts.shell.finder_open && !launcher;
            &&& action == KeyAction::CloseLauncher <==> launcher && raw == 0xff1b
            &&& action == KeyAction::LauncherActivate(index) <==> launcher && raw == 0xff0d && index
                == 0
            &&& action == KeyAction::LauncherBackspace <==> launcher && raw == 0xff08
            &&& action == KeyAction::LauncherType(c) <==> launcher && writes(raw, c)
            &&& action == KeyAction::CloseFinder <==> finder && raw == 0xff1b
            &&& action == KeyAction::FinderActivate(index) <==> finder && raw == 0xff0d
                && facts.finder_selected == Some(index)
            &&& action == KeyAction::FinderBackspace <==> finder && raw == 0xff08
            &&& action == KeyAction::FinderType(c) <==> finder && writes(raw, c)
            &&& action == KeyAction::Ignore <==> !launcher && !finder
        }),
{
}

/// A shortcut acts wherever no surface takes the key first; with the logo key
/// held it comes before the notification centre and the gallery.
pub proof fn shortcuts_come_through(
    facts: KeyFacts,
    raw: u32,
    mods: Modifiers,
    shortcut: ShellShortcut,
)
    requires
        comes_to_surfaces(facts.shell),
        mods.logo || (!facts.shell.notifications_open && !facts.shell.app_store_open),
        shortcut_of(raw, mods.logo, mods.ctrl, mods.alt, mods.shift) == Some(shortcut),
    ensures
        key_action(facts, raw, mods) is Shortcut,
        key_action(facts, raw, mods)->Shortcut_0 == shortcut_action(
            facts.shell,
            facts.focused,
            shortcut,
        ),
{
}

/// What shortcuts do: those of windows act on the focused window and on no
/// other, a minimized one is brought back where it would be minimized, windows
/// are cycled unless a modal surface holds the navigation, and every other
/// shortcut does what it says.
pub proof fn shortcuts_act_on_the_focused_window(
    shell: ShellState,
    focused: Option<FocusedWindow>,
    shortcut: ShellShortcut,
    id: u64,
)
    ensures
        ({
            let action = shortcut_action(shell, focused, shortcut);
            let own = focused matches Some(window) && window.id == id;
            let minimized = focused matches Some(window) && window.minimized;
            &&& action == ShortcutAction::CloseWindow(id) <==> own && shortcut
                == ShellShortcut::CloseWindow
            &&& action == ShortcutAction::MinimizeWindow(id) <==> own && !minimized && shortcut
                == ShellShortcut::MinimizeWindow
            &&& action == ShortcutAction::RestoreWindow(id) <==> own && minimized && shortcut
                == ShellShortcut::MinimizeWindow
            &&& action == ShortcutAction::ToggleMaximize(id) <==> own && shortcut
                == ShellShortcut::ToggleMaximize
            &&& action == ShortcutAction::ToggleFullscreen(id) <==> own && shortcut
                == ShellShortcut::ToggleFullscreen
            &&& action == ShortcutAction::ToggleTerminal <==> shortcut
                == ShellShortcut::ToggleTerminal
            &&& action == ShortcutAction::ToggleLauncher <==> shortcut
                == ShellShortcut::ToggleLauncher
            &&& action == ShortcutAction::ToggleGallery <==> shortcut
                == ShellShortcut::ToggleGallery
            &&& action == ShortcutAction::ToggleNotifications <==> shortcut
                == ShellShortcut::ToggleNotifications
            &&& action == ShortcutAction::ToggleFinder <==> shortcut == ShellShortcut::ToggleFinder
            &&& action == ShortcutAction::ToggleSettings <==> shortcut
                == ShellShortcut::ToggleSettings
            &&& action == ShortcutAction::DismissOverlay <==> shortcut
                == ShellShortcut::DismissOverlay
            &&& shortcut matches ShellShortcut::CycleWindows { reverse } ==> (
            shell.holds_navigation() || action == ShortcutAction::CycleWindows { reverse })
            &&& shortcut matches ShellShortcut::SwitchWorkspace { delta } ==> action
                == ShortcutAction::SwitchWorkspace { delta }
            &&& shortcut matches ShellShortcut::FocusWindow { number } ==> action
                == ShortcutAction::FocusWindow { number }
            &&& action == ShortcutAction::Consume ==> (shortcut is CycleWindows
                && shell.holds_navigation()) || (focused is None && (shortcut is CloseWindow
                || shortcut is MinimizeWindow || shortcut is ToggleMaximize
                || shortcut is ToggleFullscreen))
        }),
{
}

/// Which keys are kept from clients: while the terminal is open every one; else
/// only pressed ones, the logo key with Return, and every shortcut, of which
/// Escape counts only where there is an overlay to dismiss. A released key, and
/// one that is no shortcut, is passed on.
pub proof fn clients_get_the_other_keys(
    shell: ShellState,
    pressed: bool,
    raw: u32,
    mods: Modifiers,
)
    requires
        !shell.terminal_open,
    ensures
        !pressed ==> !intercepted(shell, pressed, raw, mods),
        pressed && mods.logo && raw == 0xff0d ==> intercepted(shell, pressed, raw, mods),
        ({
            let shortcut = shortcut_of(raw, mods.logo, mods.ctrl, mods.alt, mods.shift);
            &&& shortcut is None && !(mods.logo && raw == 0xff0d) ==> !intercepted(
                shell,
                pressed,
                raw,
                mods,
            )
            &&& pressed && shortcut is Some && shortcut != Some(ShellShortcut::DismissOverlay)
                ==> intercepted(shell, pressed, raw, mods)
            &&& pressed && shortcut == Some(ShellShortcut::DismissOverlay) ==> (intercepted(
                shell,
                pressed,
                raw,
                mods,
            ) <==> shell.top_overlay() is Some)
        }),
{
}

/// What special keys send to a shell: Return, Backspace, Escape and Tab their
/// control codes, and the arrows, Home, End, Delete and Tab with Shift their
/// escape sequences.
pub proof fn special_keys_send_their_codes(shift: bool)
    ensures
        key_bytes(0xff0d, false, false, shift) == Some(seq![13u8]),
        key_bytes(0xff08, false, false, shift) == Some(seq![127u8]),
        key_bytes(0x7f, false, false, shift) == Some(seq![127u8]),
        key_bytes(0xff1b, false, false, shift) == Some(seq![27u8]),
        key_bytes(0xff09, false, false, false) == Some(seq![9u8]),
        key_bytes(0xff09, false, false, true) == Some(seq![27u8, 91u8, 90u8]),
        key_bytes(0xff52, false, false, shift) == Some(seq![27u8, 91u8, 65u8]),
        key_bytes(0xff54, false, false, shift) == Some(seq![27u8, 91u8, 66u8]),
        key_bytes(0xff53, false, false, shift) == Some(seq![27u8, 91u8, 67u8]),
        key_bytes(0xff51, false, false, shift) == Some(seq![27u8, 91u8, 68u8]),
        key_bytes(0xff57, false, false, shift) == Some(seq![27u8, 91u8, 70u8]),
        key_bytes(0xff50, false, false, shift) == Some(seq![27u8, 91u8, 72u8]),
        key_bytes(0xffff, false, false, shift) == Some(seq![27u8, 91u8, 51u8, 126u8]),
{
}

/// What keys send to a shell: with Ctrl a letter, in either case, sends its place
/// in the alphabet; any other key sends what it sends without Ctrl. A printable
/// key sends its own character in UTF-8. Alt puts an escape before what does not
/// begin with one.
pub proof fn keys_send_what_they_write(
    raw: u32,
    ctrl: bool,
    alt: bool,
    shift: bool,
    c: char,
    place: u8,
)
    ensures
        1 <= place <= 26 && (raw == 96 + place || raw == 64 + place) ==> key_bytes(
            raw,
            true,
            alt,
            shift,
        ) == Some(seq![place]),
        !('a' as u32 <= raw <= 'z' as u32 || 'A' as u32 <= raw <= 'Z' as u32) ==> key_bytes(
            raw,
            ctrl,
            alt,
            shift,
        ) == key_bytes(raw, false, alt, shift),
        writes(raw, c) ==> key_bytes(raw, false, false, shift) == Some(encode_utf8(seq![c])),
        match key_bytes(raw, false, false, shift) {
            None => key_bytes(raw, false, true, shift) is None,
            Some(bytes) => key_bytes(raw, false, true, shift) == Some(
                if bytes.len() > 0 && bytes[0] == 27 {
                    bytes
                } else {
                    seq![27u8] + bytes
                },
            ),
        },
{
}

/// Which actions of keys ask for a frame only where they report so: all others
/// ask for one, but for a key that the shell ignores.
pub proof fn frames_follow_what_keys_do(action: KeyAction)
    ensures
        action_reports(action) <==> {
            ||| action is AdvanceRest || action is SkipSetupStep || action is ContinueSetup
            ||| action is AppStoreActivate || action is LauncherActivate || action is FinderActivate
            ||| action == KeyAction::Terminal(TerminalAction::NewTab)
            ||| action == KeyAction::Terminal(TerminalAction::CloseTab)
            ||| action == KeyAction::Terminal(TerminalAction::CycleTheme)
            ||| action == KeyAction::Terminal(TerminalAction::ToggleBlur)
            ||| action == KeyAction::Terminal(TerminalAction::ToggleTransparency)
            ||| action == KeyAction::Shortcut(ShortcutAction::DismissOverlay)
            ||| action is Shortcut && (action->Shortcut_0 is CycleWindows
                || action->Shortcut_0 is FocusWindow)
        },
{
}

/// Closing a tab closes the active one, and without one that of number zero.
pub proof fn the_active_tab_is_closed(id: u64)
    ensures
        closing_id(Some(id)) == id,
        closing_id(None) == 0,
{
}

/// A key that the shell ignores asks for no frame; one whose action reports asks
/// for one as it was reported, and any other always does.
pub proof fn keys_ask_for_frames(action: KeyAction, answer: bool)
    ensures
        action == KeyAction::Ignore ==> !key_asks(action, answer),
        action_reports(action) ==> key_asks(action, answer) == answer,
        action is PasswordType || action is SubmitPassword || action is LauncherType
            || action is FinderType || action is AppStoreType || action is CloseLauncher
            || action is Consume ==> key_asks(action, answer),
{
}

} // verus!
