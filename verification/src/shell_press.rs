//! Where a pointer press goes: to the session, to the shell's surfaces from
//! the top down, to a window's chrome, or to a client.

use crate::geometry::{area, Point, Rect};
use crate::notifications::{group_area, group_rect, panel_area, panel_rect};
use crate::num::{larger, max_i32, min_i32, minus, smaller};
use crate::setup_card::{button_area, button_rect};
use crate::shell::{SessionScreen, ShellState, WelcomeStage};
use crate::shortcuts::{pixel_of, VisualPointerPosition};
use vstd::arithmetic::div_mod::*;
use vstd::prelude::*;

verus! {

/// The longest time between the two presses of a double press.
pub const DOUBLE_CLICK_MS: u64 = 400;

/// The height of the band in which motion changes the dock.
pub const DOCK_BAND: i32 = 128;

#[derive(Debug, Clone, Copy, PartialEq, Eq, Structural)]
pub enum TerminalHit {
    NewTab,
    CloseTab(usize),
    Tab(usize),
    TitleEdit,
    Theme,
    Transparency,
    Blur,
    Content,
    Title,
    Window,
    Outside,
}

#[derive(Debug, Clone, Copy, PartialEq, Eq, Structural)]
pub enum ControlHit {
    Brightness,
    Volume,
    /// Any other control, by its number.
    Other(usize),
}

#[derive(Debug, Clone, Copy, PartialEq, Eq, Structural)]
pub enum AppStoreHit {
    Category(usize),
    Card(usize),
    Search,
    Outside,
}

/// What a row of the settings is, as far as a press goes.
#[derive(Debug, Clone, Copy, PartialEq, Eq, Structural)]
pub enum RowPress {
    Toggle { on: bool },
    Select { options: usize, selected: usize },
    /// A slider whose row begins at this column.
    Slider { left: i32 },
    Action,
    Other,
}

#[derive(Debug, Clone, Copy, PartialEq, Eq, Structural)]
pub struct WidgetPress {
    pub index: usize,
    /// Whether the press is on the sign that removes the widget.
    pub minus: bool,
}

#[derive(Debug, Clone, Copy, PartialEq, Eq, Structural)]
pub enum LightKind {
    Close,
    Minimize,
    Zoom,
}

#[derive(Debug, Clone, Copy, PartialEq, Eq, Structural)]
pub enum ResizeEdge {
    Top,
    Bottom,
    Left,
    Right,
    TopLeft,
    TopRight,
    BottomLeft,
    BottomRight,
}

/// What a press on a window means to its chrome.
#[derive(Debug, Clone, Copy, PartialEq, Eq, Structural)]
pub enum ChromeAction {
    TrafficLight(LightKind),
    DragTitleBar,
    Resize(ResizeEdge),
    Client,
}

/// A visible window, and what a press at the point means to its chrome.
#[derive(Debug, Clone, Copy, PartialEq, Eq, Structural)]
pub struct PressWindow {
    pub id: u64,
    pub minimized: bool,
    pub frame: Rect,
    pub action: ChromeAction,
}

/// What the surfaces of the shell have at the point of a press.
#[derive(Debug, Clone, PartialEq, Eq)]
pub struct PressFacts {
    pub shell: ShellState,
    pub work_area: Rect,
    pub bar_height: i32,
    /// Whether the animation of the update card has ended.
    pub update_finished: bool,
    pub terminal: TerminalHit,
    /// Whether the top bar has an item there.
    pub topbar_item: bool,
    pub control: Option<ControlHit>,
    pub notification_groups: usize,
    pub app_store: AppStoreHit,
    pub launcher_tile: Option<usize>,
    pub finder_button: Option<usize>,
    pub finder_place: Option<usize>,
    pub finder_places: usize,
    pub finder_item: Option<usize>,
    pub finder_selection: Option<usize>,
    pub settings_pane: Option<usize>,
    pub settings_row: Option<usize>,
    pub settings_rows: Vec<RowPress>,
    pub desktop_icon: Option<usize>,
    pub dock_item: Option<usize>,
    pub widget: Option<WidgetPress>,
    pub widgets_editing: bool,
    /// The visible windows, from the bottom up.
    pub windows: Vec<PressWindow>,
}

/// What a press does.
#[derive(Debug, Clone, Copy, PartialEq, Eq, Structural)]
pub enum PressAction {
    /// The press is dropped.
    Ignore,
    /// The press is taken and does nothing.
    Consume,
    RemovePopup,
    DismissUpdate,
    ContinueSetup,
    NewTab,
    CloseTab(usize),
    SelectTab(usize),
    EditTitle,
    CycleTheme,
    ToggleTransparency,
    ToggleBlur,
    FocusTerminal,
    /// The top bar is asked; where it does not answer, the press goes on to
    /// what lies below it.
    AskTopBar,
    ApplyControl(ControlHit),
    CloseControlCentre,
    ReadNotifications(usize),
    CloseNotifications,
    SelectCategory(usize),
    ActivateApp(usize),
    CloseAppStore,
    ActivateTile(usize),
    CloseLauncher,
    FinderBack,
    FinderForward,
    FinderPlace(usize),
    FinderOpen(usize),
    FinderSelect(usize),
    ShowPane(usize),
    SetToggle { row: usize, on: bool },
    SetChoice { row: usize, choice: usize },
    /// A slider is set to the share that lies this many pixels into its track.
    SetSlider { row: usize, offset: i64 },
    RunAction { row: usize },
    ActivateIcon(usize),
    ActivateDock(usize),
    AskRemoveWidget(usize),
    EndWidgetEditing,
    HoldWidget(usize),
    /// The bare desktop takes the focus from all windows.
    ClearFocus,
    /// A window takes the focus, and its chrome acts.
    Window { id: u64, action: ChromeAction },
}

// ---- what is below the top bar ---------------------------------------------------------

/// The first group whose card covers a point, from `from` on.
pub open spec fn group_at(panel: Rect, count: nat, from: nat, point: Point) -> Option<int>
    decreases count - from,
{
    if from >= count {
        None
    } else if group_area(panel, from, true).covers(point) {
        Some(from as int)
    } else {
        group_at(panel, count, from + 1, point)
    }
}

/// A press on the open notification centre: a card is marked read, the panel
/// swallows the press, and outside of it the centre closes.
pub open spec fn notification_press(facts: PressFacts, point: Point) -> PressAction {
    let count = facts.notification_groups as nat;
    let panel = panel_area(facts.work_area, facts.bar_height, true, count);
    if panel.covers(point) {
        match group_at(panel, count, 0, point) {
            Some(index) => PressAction::ReadNotifications(index as usize),
            None => PressAction::Consume,
        }
    } else {
        PressAction::CloseNotifications
    }
}

pub open spec fn app_store_press(hit: AppStoreHit) -> PressAction {
    match hit {
        AppStoreHit::Category(index) => PressAction::SelectCategory(index),
        AppStoreHit::Card(index) => PressAction::ActivateApp(index),
        AppStoreHit::Search => PressAction::Consume,
        AppStoreHit::Outside => PressAction::CloseAppStore,
    }
}

/// A press on the Finder: its buttons, its places, then its items; a second
/// press on the selected item opens it.
pub open spec fn finder_press(facts: PressFacts) -> PressAction {
    match facts.finder_button {
        Some(button) => if button == 0 {
            PressAction::FinderBack
        } else {
            PressAction::FinderForward
        },
        None => {
            let place = match facts.finder_place {
                Some(index) => index < facts.finder_places,
                None => false,
            };
            if place {
                PressAction::FinderPlace(facts.finder_place->Some_0)
            } else {
                match facts.finder_item {
                    Some(index) => if facts.finder_selection == Some(index) {
                        PressAction::FinderOpen(index)
                    } else {
                        PressAction::FinderSelect(index)
                    },
                    None => PressAction::Consume,
                }
            }
        },
    }
}

/// The option behind the selected one, round again at the end.
pub open spec fn next_option(options: usize, selected: usize) -> int {
    (selected + 1) % larger(options as int, 1)
}

pub open spec fn row_press(row: usize, kind: RowPress, point: Point) -> PressAction {
    match kind {
        RowPress::Toggle { on } => PressAction::SetToggle { row, on: !on },
        RowPress::Select { options, selected } => PressAction::SetChoice {
            row,
            choice: next_option(options, selected) as usize,
        },
        RowPress::Slider { left } => PressAction::SetSlider {
            row,
            offset: (point.x - left - 150) as i64,
        },
        RowPress::Action => PressAction::RunAction { row },
        RowPress::Other => PressAction::Consume,
    }
}

pub open spec fn settings_press(facts: PressFacts, point: Point) -> PressAction {
    match facts.settings_pane {
        Some(pane) => PressAction::ShowPane(pane),
        None => match facts.settings_row {
            Some(row) => if row < facts.settings_rows@.len() {
                row_press(row, facts.settings_rows@[row as int], point)
            } else {
                PressAction::Consume
            },
            None => PressAction::Consume,
        },
    }
}

pub open spec fn widget_press(widget: WidgetPress, editing: bool) -> PressAction {
    if !editing {
        PressAction::HoldWidget(widget.index)
    } else if widget.minus {
        PressAction::AskRemoveWidget(widget.index)
    } else {
        PressAction::EndWidgetEditing
    }
}

/// The topmost window that is not minimized and covers a point.
pub open spec fn window_at(windows: Seq<PressWindow>, point: Point) -> Option<PressWindow>
    decreases windows.len(),
{
    if windows.len() == 0 {
        None
    } else if !windows.last().minimized && windows.last().frame.covers(point) {
        Some(windows.last())
    } else {
        window_at(windows.drop_last(), point)
    }
}

/// What a press does on the desktop: icons, the dock, the widgets, then the
/// windows from the top down.
pub open spec fn desktop_press(facts: PressFacts, point: Point) -> PressAction {
    match facts.desktop_icon {
        Some(index) => PressAction::ActivateIcon(index),
        None => match facts.dock_item {
            Some(index) => PressAction::ActivateDock(index),
            None => match facts.widget {
                Some(widget) => widget_press(widget, facts.widgets_editing),
                None => match window_at(facts.windows@, point) {
                    Some(window) => PressAction::Window { id: window.id, action: window.action },
                    None => PressAction::ClearFocus,
                },
            },
        },
    }
}

/// What a press does below the top bar. The open surfaces swallow it, from
/// the control centre down to the settings.
pub open spec fn press_below(facts: PressFacts, point: Point) -> PressAction {
    if facts.shell.control_open {
        match facts.control {
            Some(control) => PressAction::ApplyControl(control),
            None => PressAction::CloseControlCentre,
        }
    } else if facts.shell.notifications_open {
        notification_press(facts, point)
    } else if facts.shell.app_store_open {
        app_store_press(facts.app_store)
    } else if facts.shell.launcher_open {
        match facts.launcher_tile {
            Some(index) => PressAction::ActivateTile(index),
            None => PressAction::CloseLauncher,
        }
    } else if facts.shell.finder_open {
        finder_press(facts)
    } else if facts.shell.settings_open {
        settings_press(facts, point)
    } else {
        desktop_press(facts, point)
    }
}

fn find_group(panel: Rect, count: usize, point: Point) -> (index: Option<usize>)
    ensures
        match index {
            Some(i) => group_at(panel, count as nat, 0, point) == Some(i as int),
            None => group_at(panel, count as nat, 0, point) is None,
        },
{
    let mut i: usize = 0;
    while i < count
        invariant
            i <= count,
            group_at(panel, count as nat, 0, point) == group_at(panel, count as nat, i as nat, point),
        decreases count - i,
    {
        if group_rect(panel, i, true).contains_point(point) {
            return Some(i);
        }
        i += 1;
    }
    None
}

fn press_notifications(facts: &PressFacts, point: Point) -> (action: PressAction)
    ensures
        action == notification_press(*facts, point),
{
    let count: usize = facts.notification_groups;
    let panel = panel_rect(facts.work_area, facts.bar_height, true, count);
    if !panel.contains_point(point) {
        return PressAction::CloseNotifications;
    }
    match find_group(panel, count, point) {
        Some(index) => PressAction::ReadNotifications(index),
        None => PressAction::Consume,
    }
}

fn press_finder(facts: &PressFacts) -> (action: PressAction)
    ensures
        action == finder_press(*facts),
{
    match facts.finder_button {
        Some(button) => {
            return if button == 0 {
                PressAction::FinderBack
            } else {
                PressAction::FinderForward
            };
        },
        None => {},
    }
    match facts.finder_place {
        Some(index) => {
            if index < facts.finder_places {
                return PressAction::FinderPlace(index);
            }
        },
        None => {},
    }
    match facts.finder_item {
        Some(index) => {
            let selected = match facts.finder_selection {
                Some(chosen) => chosen == index,
                None => false,
            };
            if selected {
                PressAction::FinderOpen(index)
            } else {
                PressAction::FinderSelect(index)
            }
        },
        None => PressAction::Consume,
    }
}

fn choose_next(options: usize, selected: usize) -> (choice: usize)
    ensures
        choice == next_option(options, selected),
{
    let count: usize = if options > 0 {
        options
    } else {
        1
    };
    let rest: usize = selected % count;
    proof {
        lemma_add_mod_noop(selected as int, 1, count as int);
        if count > 1 {
            lemma_small_mod(1, count as nat);
        }
        if rest + 1 < count {
            lemma_small_mod((rest + 1) as nat, count as nat);
        } else {
            lemma_mod_self_0(count as int);
        }
        if count == 1 {
            assert((selected + 1) % 1 == 0);
        }
    }
    if rest + 1 == count {
        0
    } else {
        rest + 1
    }
}

fn press_settings(facts: &PressFacts, point: Point) -> (action: PressAction)
    ensures
        action == settings_press(*facts, point),
{
    match facts.settings_pane {
        Some(pane) => return PressAction::ShowPane(pane),
        None => {},
    }
    let row: usize = match facts.settings_row {
        Some(row) => row,
        None => return PressAction::Consume,
    };
    if row >= facts.settings_rows.len() {
        return PressAction::Consume;
    }
    match facts.settings_rows[row] {
        RowPress::Toggle { on } => PressAction::SetToggle { row, on: !on },
        RowPress::Select { options, selected } => PressAction::SetChoice {
            row,
            choice: choose_next(options, selected),
        },
        RowPress::Slider { left } => PressAction::SetSlider {
            row,
            offset: point.x as i64 - left as i64 - 150,
        },
        RowPress::Action => PressAction::RunAction { row },
        RowPress::Other => PressAction::Consume,
    }
}

fn find_window(windows: &Vec<PressWindow>, point: Point) -> (found: Option<PressWindow>)
    ensures
        found == window_at(windows@, point),
{
    let mut end: usize = windows.len();
    assert(windows@.subrange(0, end as int) =~= windows@);
    while end > 0
        invariant
            end <= windows.len(),
            window_at(windows@.subrange(0, end as int), point) == window_at(windows@, point),
        decreases end,
    {
        let ghost part = windows@.subrange(0, end as int);
        assert(part.last() == windows@[end - 1]);
        assert(part.drop_last() =~= windows@.subrange(0, end - 1));
        let window = windows[end - 1];
        if !window.minimized && window.frame.contains_point(point) {
            return Some(window);
        }
        end -= 1;
    }
    None
}

fn press_desktop(facts: &PressFacts, point: Point) -> (action: PressAction)
    ensures
        action == desktop_press(*facts, point),
{
    match facts.desktop_icon {
        Some(index) => return PressAction::ActivateIcon(index),
        None => {},
    }
    match facts.dock_item {
        Some(index) => return PressAction::ActivateDock(index),
        None => {},
    }
    match facts.widget {
        Some(widget) => {
            return if !facts.widgets_editing {
                PressAction::HoldWidget(widget.index)
            } else if widget.minus {
                PressAction::AskRemoveWidget(widget.index)
            } else {
                PressAction::EndWidgetEditing
            };
        },
        None => {},
    }
    match find_window(&facts.windows, point) {
        Some(window) => PressAction::Window { id: window.id, action: window.action },
        None => PressAction::ClearFocus,
    }
}

/// Resolves a press that the top bar did not answer.
pub fn press_below_top_bar(facts: &PressFacts, point: Point) -> (action: PressAction)
    ensures
        action == press_below(*facts, point),
{
    if facts.shell.control_open {
        return match facts.control {
            Some(control) => PressAction::ApplyControl(control),
            None => PressAction::CloseControlCentre,
        };
    }
    if facts.shell.notifications_open {
        return press_notifications(facts, point);
    }
    if facts.shell.app_store_open {
        return match facts.app_store {
            AppStoreHit::Category(index) => PressAction::SelectCategory(index),
            AppStoreHit::Card(index) => PressAction::ActivateApp(index),
            AppStoreHit::Search => PressAction::Consume,
            AppStoreHit::Outside => PressAction::CloseAppStore,
        };
    }
    if facts.shell.launcher_open {
        return match facts.launcher_tile {
            Some(index) => PressAction::ActivateTile(index),
            None => PressAction::CloseLauncher,
        };
    }
    if facts.shell.finder_open {
        return press_finder(facts);
    }
    if facts.shell.settings_open {
        return press_settings(facts, point);
    }
    press_desktop(facts, point)
}

// ---- the press itself ------------------------------------------------------------------

/// What a press does in the built-in terminal; nothing where it misses it.
pub open spec fn terminal_press(hit: TerminalHit) -> Option<PressAction> {
    match hit {
        TerminalHit::NewTab => Some(PressAction::NewTab),
        TerminalHit::CloseTab(index) => Some(PressAction::CloseTab(index)),
        TerminalHit::Tab(index) => Some(PressAction::SelectTab(index)),
        TerminalHit::TitleEdit => Some(PressAction::EditTitle),
        TerminalHit::Theme => Some(PressAction::CycleTheme),
        TerminalHit::Transparency => Some(PressAction::ToggleTransparency),
        TerminalHit::Blur => Some(PressAction::ToggleBlur),
        TerminalHit::Content | TerminalHit::Title | TerminalHit::Window => Some(
            PressAction::FocusTerminal,
        ),
        TerminalHit::Outside => None,
    }
}

/// What a press at a pixel does: the removal popup and the welcome answer
/// everything, then setup, then the terminal, then the top bar.
pub open spec fn press_at(facts: PressFacts, point: Point) -> PressAction {
    if facts.shell.remove_popup {
        PressAction::RemovePopup
    } else if facts.shell.welcome == Some(WelcomeStage::Update) {
        if facts.update_finished {
            PressAction::DismissUpdate
        } else {
            PressAction::Consume
        }
    } else if facts.shell.welcome == Some(WelcomeStage::FirstRun) {
        PressAction::Consume
    } else if facts.shell.setup_open {
        if button_area(facts.work_area).covers(point) {
            PressAction::ContinueSetup
        } else {
            PressAction::Consume
        }
    } else if facts.shell.terminal_open && terminal_press(facts.terminal) is Some {
        terminal_press(facts.terminal)->Some_0
    } else if facts.topbar_item {
        PressAction::AskTopBar
    } else {
        press_below(facts, point)
    }
}

/// What a press at a position, the bits of two binary64 numbers, does.
pub open spec fn press_action(facts: PressFacts, x: u64, y: u64) -> PressAction {
    match pixel_of(x, y) {
        None => PressAction::Ignore,
        Some(pixel) => press_at(facts, Point { x: pixel.x, y: pixel.y }),
    }
}

fn press_terminal(hit: TerminalHit) -> (action: Option<PressAction>)
    ensures
        action == terminal_press(hit),
{
    match hit {
        TerminalHit::NewTab => Some(PressAction::NewTab),
        TerminalHit::CloseTab(index) => Some(PressAction::CloseTab(index)),
        TerminalHit::Tab(index) => Some(PressAction::SelectTab(index)),
        TerminalHit::TitleEdit => Some(PressAction::EditTitle),
        TerminalHit::Theme => Some(PressAction::CycleTheme),
        TerminalHit::Transparency => Some(PressAction::ToggleTransparency),
        TerminalHit::Blur => Some(PressAction::ToggleBlur),
        TerminalHit::Content | TerminalHit::Title | TerminalHit::Window => Some(
            PressAction::FocusTerminal,
        ),
        TerminalHit::Outside => None,
    }
}

/// Resolves a press against the shell first, then against the clients.
pub fn dispatch_press(facts: &PressFacts, x: u64, y: u64) -> (action: PressAction)
    ensures
        action == press_action(*facts, x, y),
{
    let point = match VisualPointerPosition::from_f64(x, y) {
        None => return PressAction::Ignore,
        Some(pixel) => Point { x: pixel.x, y: pixel.y },
    };
    if facts.shell.remove_popup {
        return PressAction::RemovePopup;
    }
    match facts.shell.welcome {
        Some(WelcomeStage::Update) => {
            return if facts.update_finished {
                PressAction::DismissUpdate
            } else {
                PressAction::Consume
            };
        },
        Some(WelcomeStage::FirstRun) => return PressAction::Consume,
        None => {},
    }
    if facts.shell.setup_open {
        return if button_rect(facts.work_area).contains_point(point) {
            PressAction::ContinueSetup
        } else {
            PressAction::Consume
        };
    }
    if facts.shell.terminal_open {
        match press_terminal(facts.terminal) {
            Some(action) => return action,
            None => {},
        }
    }
    if facts.topbar_item {
        return PressAction::AskTopBar;
    }
    press_below_top_bar(facts, point)
}

/// Whether what an action reports decides if a frame is needed.
pub open spec fn action_reports(action: PressAction) -> bool {
    match action {
        PressAction::RemovePopup | PressAction::DismissUpdate | PressAction::ContinueSetup => true,
        PressAction::NewTab | PressAction::CloseTab(_) | PressAction::SelectTab(_) => true,
        PressAction::EditTitle | PressAction::CycleTheme | PressAction::ToggleTransparency => true,
        PressAction::ToggleBlur | PressAction::ActivateApp(_) | PressAction::ActivateTile(_) => true,
        PressAction::ActivateIcon(_) => true,
        _ => false,
    }
}

/// Whether an action leaves what is drawn as it is: a press that is dropped,
/// and one that only goes to a client.
pub open spec fn draws_nothing(action: PressAction) -> bool {
    match action {
        PressAction::Ignore => true,
        PressAction::Window { id: _, action: ChromeAction::Client } => true,
        _ => false,
    }
}

/// Whether an action of a press asks for a frame.
pub open spec fn press_asks(action: PressAction, answer: bool) -> bool {
    if action_reports(action) {
        answer
    } else {
        !draws_nothing(action)
    }
}

/// Whether a press asks for a frame, once its action reported `answer`.
pub fn press_redraws(action: PressAction, answer: bool) -> (redraw: bool)
    ensures
        redraw == press_asks(action, answer),
{
    match action {
        PressAction::RemovePopup | PressAction::DismissUpdate | PressAction::ContinueSetup
        | PressAction::NewTab | PressAction::CloseTab(_) | PressAction::SelectTab(_)
        | PressAction::EditTitle | PressAction::CycleTheme | PressAction::ToggleTransparency
        | PressAction::ToggleBlur | PressAction::ActivateApp(_) | PressAction::ActivateTile(_)
        | PressAction::ActivateIcon(_) => answer,
        PressAction::Ignore => false,
        PressAction::Window { id: _, action: chrome } => match chrome {
            ChromeAction::Client => false,
            _ => true,
        },
        _ => true,
    }
}

// ---- title bars ------------------------------------------------------------------------

/// A press on a title bar: when it came, and where, as binary64.
#[derive(Debug, Clone, Copy, PartialEq, Eq, Structural)]
pub struct TitleSpot {
    pub at_ms: u64,
    pub x: u64,
    pub y: u64,
}

#[derive(Debug, Clone, Copy, PartialEq, Eq, Structural)]
pub enum TitlePress {
    ToggleMaximize,
    Drag,
}

/// The press that the next one may double.
#[derive(Debug, Clone, Copy, PartialEq, Eq, Structural)]
pub struct TitleBar {
    pub last: Option<TitleSpot>,
}

impl TitleBar {
    /// Whether a press at `now_ms` doubles the last one.
    pub open spec fn doubles(self, now_ms: u64, same_spot: bool) -> bool {
        match self.last {
            Some(spot) => now_ms - spot.at_ms <= DOUBLE_CLICK_MS && same_spot,
            None => false,
        }
    }

    /// What a press on a title bar does.
    pub open spec fn title_press(self, press: TitleSpot, same_spot: bool) -> TitlePress {
        if self.doubles(press.at_ms, same_spot) {
            TitlePress::ToggleMaximize
        } else {
            TitlePress::Drag
        }
    }

    /// The press that a later one may double.
    pub open spec fn remembered(self, press: TitleSpot, same_spot: bool) -> Option<TitleSpot> {
        if self.doubles(press.at_ms, same_spot) {
            None
        } else {
            Some(press)
        }
    }

    /// A press on a title bar: a second one in time and place toggles the
    /// maximized state, any other begins a drag. `same_spot` tells whether the
    /// press before was less than three pixels away in both directions.
    pub fn handle_title_bar_press(&mut self, press: TitleSpot, same_spot: bool) -> (outcome:
        TitlePress)
        ensures
            outcome == old(self).title_press(press, same_spot),
            final(self).last == old(self).remembered(press, same_spot),
    {
        let doubled = match self.last {
            Some(spot) => (press.at_ms <= spot.at_ms || press.at_ms - spot.at_ms
                <= DOUBLE_CLICK_MS) && same_spot,
            None => false,
        };
        if doubled {
            self.last = None;
            TitlePress::ToggleMaximize
        } else {
            self.last = Some(press);
            TitlePress::Drag
        }
    }
}

// ---- buttons ---------------------------------------------------------------------------

/// What a button does before a client sees it.
#[derive(Debug, Clone, Copy, PartialEq, Eq, Structural)]
pub enum ButtonStep {
    /// The resting or locked session takes the press.
    SessionPress,
    /// The resting or locked session swallows it.
    SessionSwallow,
    /// The press is resolved against the shell.
    Dispatch,
    /// A held widget is let go.
    WidgetRelease(usize),
    /// Whatever was held is let go.
    EndHold,
    /// It only goes to the client.
    Pass,
}

/// What a button changes at once, and what is to be done for it.
#[derive(Debug, Clone, Copy, PartialEq, Eq, Structural)]
pub struct ButtonPlan {
    /// The count of held primary buttons from now on.
    pub held: u32,
    /// Whether the serial of the press is kept, so that a client may ask for
    /// a grab with it.
    pub record_press: bool,
    pub step: ButtonStep,
}

pub open spec fn button_step(
    shell: ShellState,
    pressed: bool,
    primary: bool,
    grabbed: bool,
    widget: Option<usize>,
) -> ButtonStep {
    if shell.locked_away() {
        if pressed && primary {
            ButtonStep::SessionPress
        } else {
            ButtonStep::SessionSwallow
        }
    } else if pressed {
        if primary && !grabbed {
            ButtonStep::Dispatch
        } else {
            ButtonStep::Pass
        }
    } else if primary {
        match widget {
            Some(index) => ButtonStep::WidgetRelease(index),
            None => ButtonStep::EndHold,
        }
    } else {
        ButtonStep::Pass
    }
}

/// The count of held primary buttons.
pub open spec fn held_after(held: int, pressed: bool, primary: bool) -> int {
    if !primary {
        held
    } else if pressed {
        held + 1
    } else if held > 0 {
        held - 1
    } else {
        0
    }
}

fn resolve_button(
    shell: &ShellState,
    pressed: bool,
    primary: bool,
    grabbed: bool,
    widget: Option<usize>,
) -> (step: ButtonStep)
    ensures
        step == button_step(*shell, pressed, primary, grabbed, widget),
{
    match shell.session {
        SessionScreen::Rest | SessionScreen::Lock => {
            return if pressed && primary {
                ButtonStep::SessionPress
            } else {
                ButtonStep::SessionSwallow
            };
        },
        _ => {},
    }
    if pressed {
        if primary && !grabbed {
            ButtonStep::Dispatch
        } else {
            ButtonStep::Pass
        }
    } else if primary {
        match widget {
            Some(index) => ButtonStep::WidgetRelease(index),
            None => ButtonStep::EndHold,
        }
    } else {
        ButtonStep::Pass
    }
}

/// Resolves a button. Only the primary one reaches the shell; `widget` is the
/// one under the pointer.
pub fn process_button(
    shell: &ShellState,
    held: u32,
    pressed: bool,
    primary: bool,
    grabbed: bool,
    widget: Option<usize>,
) -> (plan: ButtonPlan)
    requires
        pressed && primary ==> held < u32::MAX,
    ensures
        plan.held == held_after(held as int, pressed, primary),
        plan.record_press == (pressed && primary),
        plan.step == button_step(*shell, pressed, primary, grabbed, widget),
{
    let held: u32 = if !primary {
        held
    } else if pressed {
        held + 1
    } else if held > 0 {
        held - 1
    } else {
        0
    };
    ButtonPlan {
        held,
        record_press: pressed && primary,
        step: resolve_button(shell, pressed, primary, grabbed, widget),
    }
}

/// What the client under the pointer gets of a button.
#[derive(Debug, Clone, Copy, PartialEq, Eq, Structural)]
pub enum Forwarding {
    Nothing,
    /// Only the end of the frame.
    FrameOnly,
    /// The button, and the end of the frame.
    Button,
}

#[derive(Debug, Clone, Copy, PartialEq, Eq, Structural)]
pub struct ButtonEnd {
    pub redraw: bool,
    pub forward: Forwarding,
}

/// Whether a button asks for a frame.
pub open spec fn button_redraws(step: ButtonStep, answer: bool) -> bool {
    match step {
        ButtonStep::SessionPress => true,
        ButtonStep::Dispatch | ButtonStep::WidgetRelease(_) => answer,
        _ => false,
    }
}

/// What the client below gets of a button.
pub open spec fn button_forwards(step: ButtonStep, terminal: bool) -> Forwarding {
    match step {
        ButtonStep::SessionPress | ButtonStep::SessionSwallow => Forwarding::Nothing,
        _ => if terminal {
            Forwarding::FrameOnly
        } else {
            Forwarding::Button
        },
    }
}

/// How a button ends, once the press or the release of the widget reported
/// `answer`. A press of the terminal never reaches the client below it, not
/// even the one that closes the terminal.
pub fn finish_button(step: ButtonStep, answer: bool, terminal_was_open: bool, terminal_is_open: bool) -> (end:
    ButtonEnd)
    ensures
        end.redraw == button_redraws(step, answer),
        end.forward == button_forwards(step, terminal_was_open || terminal_is_open),
{
    let redraw = match step {
        ButtonStep::SessionPress => true,
        ButtonStep::Dispatch | ButtonStep::WidgetRelease(_) => answer,
        _ => false,
    };
    let forward = match step {
        ButtonStep::SessionPress | ButtonStep::SessionSwallow => Forwarding::Nothing,
        _ => if terminal_was_open || terminal_is_open {
            Forwarding::FrameOnly
        } else {
            Forwarding::Button
        },
    };
    ButtonEnd { redraw, forward }
}

// ---- motion ----------------------------------------------------------------------------

/// Whether held motion on the rest screen is a drag towards the lock.
pub fn drags_rest_screen(shell: &ShellState, held: u32, previous_known: bool) -> (yes: bool)
    ensures
        yes == (held > 0 && shell.session == SessionScreen::Rest && previous_known),
{
    held > 0 && shell.session == SessionScreen::Rest && previous_known
}

/// The band of the dock at the bottom of the work area.
pub open spec fn dock_band(work_area: Rect) -> Rect {
    area(
        work_area.origin.x as int,
        work_area.bottom_edge() - 128,
        larger(work_area.size.width as int, 0),
        smaller(128, larger(work_area.size.height as int, 0)),
    )
}

/// Whether motion can change what the shell draws: crossing the edge of the
/// dock's band, or going along inside of it.
pub open spec fn motion_redraws(work_area: Rect, previous: (u64, u64), next: (u64, u64)) -> bool {
    match (pixel_of(previous.0, previous.1), pixel_of(next.0, next.1)) {
        (Some(a), Some(b)) => {
            let band = dock_band(work_area);
            let was = band.covers(Point { x: a.x, y: a.y });
            let is = band.covers(Point { x: b.x, y: b.y });
            a != b && (was != is || (was && a.x != b.x))
        },
        _ => true,
    }
}

/// Decides whether motion asks for a frame.
pub fn dock_motion_needs_frame(work_area: Rect, previous: (u64, u64), next: (u64, u64)) -> (yes: bool)
    ensures
        yes == motion_redraws(work_area, previous, next),
{
    let a = match VisualPointerPosition::from_f64(previous.0, previous.1) {
        None => return true,
        Some(pixel) => pixel,
    };
    let b = match VisualPointerPosition::from_f64(next.0, next.1) {
        None => return true,
        Some(pixel) => pixel,
    };
    if a.x == b.x && a.y == b.y {
        return false;
    }
    let height: i32 = min_i32(DOCK_BAND, max_i32(work_area.size.height, 0));
    let band = Rect::new(
        work_area.origin.x,
        minus(work_area.bottom(), DOCK_BAND),
        max_i32(work_area.size.width, 0),
        height,
    );
    assert(band == dock_band(work_area));
    let was = band.contains_point(Point { x: a.x, y: a.y });
    let is = band.contains_point(Point { x: b.x, y: b.y });
    was != is || (was && a.x != b.x)
}

/// Whether motion from one position to another asks for a frame.
pub open spec fn motion_asks(
    work_area: Rect,
    previous: Option<(u64, u64)>,
    next: (u64, u64),
    dragged: bool,
) -> bool {
    dragged || (match previous {
        Some(before) => motion_redraws(work_area, before, next),
        None => true,
    })
}

/// Whether motion asks for a frame: the first one does, a drag that changed
/// something does, and what changes the dock does.
pub fn process_motion(
    work_area: Rect,
    previous: Option<(u64, u64)>,
    next: (u64, u64),
    dragged: bool,
) -> (redraw: bool)
    ensures
        redraw == motion_asks(work_area, previous, next, dragged),
{
    match previous {
        Some(before) => dragged || dock_motion_needs_frame(work_area, before, next),
        None => true,
    }
}

// ---- laws ------------------------------------------------------------------------------

/// While a modal surface is up, no press reaches a window.
pub proof fn modal_surfaces_keep_presses(facts: PressFacts, x: u64, y: u64)
    requires
        facts.shell.remove_popup || facts.shell.welcome is Some || facts.shell.setup_open
            || facts.shell.control_open || facts.shell.notifications_open
            || facts.shell.app_store_open || facts.shell.launcher_open || facts.shell.finder_open
            || facts.shell.settings_open,
    ensures
        !(press_action(facts, x, y) is Window),
        press_action(facts, x, y) != PressAction::ClearFocus,
{
    match facts.shell.welcome {
        Some(WelcomeStage::Update) => {},
        Some(WelcomeStage::FirstRun) => {},
        None => {},
    }
    match facts.terminal {
        TerminalHit::Outside => {},
        _ => {
            let taken = terminal_press(facts.terminal)->Some_0;
            assert(!(taken is Window) && taken != PressAction::ClearFocus);
        },
    }
    match pixel_of(x, y) {
        Some(pixel) => {
            let point = Point { x: pixel.x, y: pixel.y };
            let centre = notification_press(facts, point);
            assert(!(centre is Window) && centre != PressAction::ClearFocus);
            let settings = settings_press(facts, point);
            assert(!(settings is Window) && settings != PressAction::ClearFocus);
            let finder = finder_press(facts);
            assert(!(finder is Window) && finder != PressAction::ClearFocus);
        },
        None => {},
    }
}

proof fn found_windows_cover(windows: Seq<PressWindow>, point: Point)
    ensures
        window_at(windows, point) matches Some(window) ==> windows.contains(window)
            && !window.minimized && window.frame.covers(point),
    decreases windows.len(),
{
    if windows.len() > 0 {
        let rest = windows.drop_last();
        found_windows_cover(rest, point);
        match window_at(windows, point) {
            Some(window) => {
                if rest.contains(window) {
                    let k = choose|k: int| 0 <= k < rest.len() && rest[k] == window;
                    assert(windows[k] == window);
                } else {
                    assert(windows[windows.len() - 1] == window);
                }
            },
            None => {},
        }
    }
}

/// A press reaches only a window that is there: visible, not minimized, and
/// under the pointer.
pub proof fn presses_reach_visible_windows(facts: PressFacts, point: Point, id: u64, action: ChromeAction)
    requires
        press_at(facts, point) == (PressAction::Window { id, action }),
    ensures
        exists|k: int|
            0 <= k < facts.windows@.len() && (#[trigger] facts.windows@[k]).id == id
                && !facts.windows@[k].minimized && facts.windows@[k].frame.covers(point),
{
    found_windows_cover(facts.windows@, point);
    let window = window_at(facts.windows@, point)->Some_0;
    let k = choose|k: int| 0 <= k < facts.windows@.len() && facts.windows@[k] == window;
    assert(facts.windows@[k].id == id);
}

/// Standing still never asks for a frame.
pub proof fn standing_still_redraws_nothing(work_area: Rect, at: (u64, u64))
    requires
        pixel_of(at.0, at.1) is Some,
    ensures
        !motion_redraws(work_area, at, at),
{
}

/// A press and its release leave the count of held buttons as it was.
pub proof fn releases_undo_presses(held: u32)
    ensures
        held_after(held_after(held as int, true, true), false, true) == held,
{
}

/// A resting or locked session lets no button through to a client.
pub proof fn locked_sessions_keep_buttons(
    shell: ShellState,
    pressed: bool,
    primary: bool,
    grabbed: bool,
    widget: Option<usize>,
)
    requires
        shell.locked_away(),
    ensures
        ({
            let step = button_step(shell, pressed, primary, grabbed, widget);
            step == ButtonStep::SessionPress || step == ButtonStep::SessionSwallow
        }),
{
}

/// Whether nothing above the open surfaces of the shell takes a press: neither
/// the popup, the welcome and setup, nor the terminal or the top bar.
pub open spec fn comes_to_the_surfaces(facts: PressFacts) -> bool {
    &&& !facts.shell.remove_popup && facts.shell.welcome is None && !facts.shell.setup_open
    &&& facts.shell.terminal_open ==> facts.terminal == TerminalHit::Outside
    &&& !facts.topbar_item
}

/// Whether nothing below the top bar is open above the gallery, the launcher,
/// the Finder, the settings or the desktop; `depth` counts these from zero.
pub open spec fn clear_down_to(shell: ShellState, depth: int) -> bool {
    &&& !shell.control_open && !shell.notifications_open
    &&& depth > 0 ==> !shell.app_store_open
    &&& depth > 1 ==> !shell.launcher_open
    &&& depth > 2 ==> !shell.finder_open
    &&& depth > 3 ==> !shell.settings_open
}

/// What the control centre, the gallery and the launcher do with a press: each
/// passes on exactly what was hit while it is the topmost open surface, and
/// closes where nothing of it was hit.
pub proof fn open_surfaces_pass_on_what_was_hit(
    facts: PressFacts,
    point: Point,
    control: ControlHit,
    index: usize,
)
    ensures
        ({
            let action = press_below(facts, point);
            let gallery = clear_down_to(facts.shell, 0) && facts.shell.app_store_open;
            let launcher = clear_down_to(facts.shell, 1) && facts.shell.launcher_open;
            &&& action == PressAction::ApplyControl(control) <==> facts.shell.control_open
                && facts.control == Some(control)
            &&& action == PressAction::CloseControlCentre <==> facts.shell.control_open
                && facts.control is None
            &&& action == PressAction::SelectCategory(index) <==> gallery && facts.app_store
                == AppStoreHit::Category(index)
            &&& action == PressAction::ActivateApp(index) <==> gallery && facts.app_store
                == AppStoreHit::Card(index)
            &&& action == PressAction::CloseAppStore <==> gallery && facts.app_store
                == AppStoreHit::Outside
            &&& gallery && facts.app_store == AppStoreHit::Search ==> action == PressAction::Consume
            &&& action == PressAction::ActivateTile(index) <==> launcher && facts.launcher_tile
                == Some(index)
            &&& action == PressAction::CloseLauncher <==> launcher && facts.launcher_tile is None
        }),
{
}

/// What the Finder does with a press while it is the topmost open surface: its
/// first button goes back and the other forward, a place or an item that was
/// hit is the one that is shown or selected, and a press on the selected item
/// opens it.
pub proof fn the_finder_passes_on_what_was_hit(facts: PressFacts, point: Point, index: usize)
    ensures
        ({
            let action = press_below(facts, point);
            let finder = clear_down_to(facts.shell, 2) && facts.shell.finder_open;
            let place = facts.finder_place matches Some(i) && i < facts.finder_places;
            let item = finder && facts.finder_button is None && !place;
            &&& action == PressAction::FinderBack <==> finder && facts.finder_button == Some(0usize)
            &&& action == PressAction::FinderForward <==> finder && (
            facts.finder_button matches Some(button) && button != 0)
            &&& action == PressAction::FinderPlace(index) <==> finder && facts.finder_button is None
                && facts.finder_place == Some(index) && index < facts.finder_places
            &&& action == PressAction::FinderOpen(index) <==> item && facts.finder_item == Some(
                index,
            ) && facts.finder_selection == Some(index)
            &&& action == PressAction::FinderSelect(index) <==> item && facts.finder_item == Some(
                index,
            ) && facts.finder_selection != Some(index)
            &&& item && facts.finder_item is None ==> action == PressAction::Consume
        }),
{
}

/// What the settings do with a press while they are the topmost open surface:
/// a pane that was hit is shown; in a row a toggle is turned round, a choice
/// goes on to the next option and round again at the end, a slider is set where
/// it was hit, 150 pixels behind the start of its row, and an action is run.
pub proof fn the_settings_pass_on_what_was_hit(
    facts: PressFacts,
    point: Point,
    index: usize,
    choice: usize,
)
    ensures
        ({
            let action = press_below(facts, point);
            let settings = clear_down_to(facts.shell, 3) && facts.shell.settings_open;
            let row = settings && facts.settings_pane is None && facts.settings_row == Some(index)
                && index < facts.settings_rows@.len();
            let kind = facts.settings_rows@[index as int];
            &&& action == PressAction::ShowPane(index) <==> settings && facts.settings_pane == Some(
                index,
            )
            &&& action == (PressAction::SetToggle { row: index, on: true }) <==> row && kind == (
            RowPress::Toggle { on: false })
            &&& action == (PressAction::SetToggle { row: index, on: false }) <==> row && kind == (
            RowPress::Toggle { on: true })
            &&& action == (PressAction::RunAction { row: index }) <==> row && kind
                == RowPress::Action
            &&& row && kind == RowPress::Other ==> action == PressAction::Consume
            &&& row && kind is Slider ==> (action matches PressAction::SetSlider {
                row: told,
                offset,
            } && told == index && offset + 150 + kind->left == point.x)
            &&& row && kind is Select && kind->selected + 1 < kind->options ==> action == (
            PressAction::SetChoice { row: index, choice: (kind->selected + 1) as usize })
            &&& row && kind is Select && kind->selected + 1 == kind->options ==> action == (
            PressAction::SetChoice { row: index, choice: 0 })
            &&& action == (PressAction::SetChoice { row: index, choice }) ==> row && kind is Select
            &&& settings && facts.settings_pane is None && facts.settings_row is None ==> action
                == PressAction::Consume
        }),
{
    if index < facts.settings_rows@.len() {
        match facts.settings_rows@[index as int] {
            RowPress::Select { options, selected } => {
                if selected + 1 < options {
                    lemma_small_mod((selected + 1) as nat, options as nat);
                } else if selected + 1 == options {
                    lemma_mod_self_0(options as int);
                }
            },
            _ => {},
        }
    }
}

proof fn found_windows_are_topmost(windows: Seq<PressWindow>, point: Point)
    ensures
        match window_at(windows, point) {
            Some(window) => exists|k: int|
                {
                    &&& 0 <= k < windows.len()
                    &&& #[trigger] windows[k] == window
                    &&& !window.minimized && window.frame.covers(point)
                    &&& forall|j: int|
                        k < j < windows.len() ==> (#[trigger] windows[j]).minimized
                            || !windows[j].frame.covers(point)
                },
            None => forall|j: int|
                0 <= j < windows.len() ==> (#[trigger] windows[j]).minimized
                    || !windows[j].frame.covers(point),
        },
    decreases windows.len(),
{
    if windows.len() > 0 {
        let rest = windows.drop_last();
        found_windows_are_topmost(rest, point);
        let top = windows[windows.len() - 1];
        if !(!top.minimized && top.frame.covers(point)) {
            match window_at(rest, point) {
                Some(window) => {
                    let k = choose|k: int|
                        {
                            &&& 0 <= k < rest.len()
                            &&& #[trigger] rest[k] == window
                            &&& !window.minimized && window.frame.covers(point)
                            &&& forall|j: int|
                                k < j < rest.len() ==> (#[trigger] rest[j]).minimized
                                    || !rest[j].frame.covers(point)
                        };
                    assert(windows[k] == window);
                    assert forall|j: int| k < j < windows.len() implies (
                    #[trigger] windows[j]).minimized || !windows[j].frame.covers(point) by {
                        if j < rest.len() {
                            assert(rest[j] == windows[j]);
                        }
                    }
                },
                None => {
                    assert forall|j: int| 0 <= j < windows.len() implies (
                    #[trigger] windows[j]).minimized || !windows[j].frame.covers(point) by {
                        if j < rest.len() {
                            assert(rest[j] == windows[j]);
                        }
                    }
                },
            }
        }
    }
}

/// What a press does on the bare desktop: an icon comes before the dock, the
/// dock before the widgets and those before the windows, and each is the one
/// that was hit. A widget is held, or while widgets are edited asked about
/// where its sign was hit.
pub proof fn the_desktop_passes_on_what_was_hit(facts: PressFacts, point: Point, index: usize)
    ensures
        ({
            let action = press_below(facts, point);
            let desktop = clear_down_to(facts.shell, 4);
            let widget = desktop && facts.desktop_icon is None && facts.dock_item is None;
            &&& action == PressAction::ActivateIcon(index) <==> desktop && facts.desktop_icon
                == Some(index)
            &&& action == PressAction::ActivateDock(index) <==> desktop && facts.desktop_icon is None
                && facts.dock_item == Some(index)
            &&& action == PressAction::HoldWidget(index) <==> widget && !facts.widgets_editing && (
            facts.widget matches Some(w) && w.index == index)
            &&& action == PressAction::AskRemoveWidget(index) <==> widget && facts.widgets_editing
                && (facts.widget matches Some(w) && w.index == index && w.minus)
            &&& action == PressAction::EndWidgetEditing <==> widget && facts.widgets_editing && (
            facts.widget matches Some(w) && !w.minus)
        }),
{
}

/// A press on the desktop goes to the window on top of all that are there: the
/// one that it reaches is not minimized and under the pointer, with its own
/// chrome's answer, and every window above it is minimized or elsewhere. Where
/// no window is under the pointer the focus is cleared.
pub proof fn presses_reach_the_topmost_window(facts: PressFacts, point: Point)
    requires
        clear_down_to(facts.shell, 4),
        facts.desktop_icon is None && facts.dock_item is None && facts.widget is None,
    ensures
        match press_below(facts, point) {
            PressAction::Window { id, action } => exists|k: int|
                {
                    &&& 0 <= k < facts.windows@.len()
                    &&& (#[trigger] facts.windows@[k]).id == id
                    &&& facts.windows@[k].action == action
                    &&& !facts.windows@[k].minimized
                    &&& facts.windows@[k].frame.covers(point)
                    &&& forall|j: int|
                        k < j < facts.windows@.len() ==> (#[trigger] facts.windows@[j]).minimized
                            || !facts.windows@[j].frame.covers(point)
                },
            action => action == PressAction::ClearFocus && forall|j: int|
                0 <= j < facts.windows@.len() ==> (#[trigger] facts.windows@[j]).minimized
                    || !facts.windows@[j].frame.covers(point),
        },
{
    found_windows_are_topmost(facts.windows@, point);
    match window_at(facts.windows@, point) {
        Some(window) => {
            let k = choose|k: int|
                {
                    &&& 0 <= k < facts.windows@.len()
                    &&& #[trigger] facts.windows@[k] == window
                    &&& !window.minimized && window.frame.covers(point)
                    &&& forall|j: int|
                        k < j < facts.windows@.len() ==> (#[trigger] facts.windows@[j]).minimized
                            || !facts.windows@[j].frame.covers(point)
                };
            assert(facts.windows@[k].id == window.id);
        },
        None => {},
    }
}

proof fn found_groups_are_first(panel: Rect, count: nat, from: nat, point: Point)
    ensures
        match group_at(panel, count, from, point) {
            Some(index) => from <= index < count && group_area(panel, index as nat, true).covers(
                point,
            ) && forall|j: nat|
                from <= j < index ==> !(#[trigger] group_area(panel, j, true)).covers(point),
            None => forall|j: nat|
                from <= j < count ==> !(#[trigger] group_area(panel, j, true)).covers(point),
        },
    decreases count - from,
{
    if from < count && !group_area(panel, from, true).covers(point) {
        found_groups_are_first(panel, count, from + 1, point);
        assert forall|j: nat| from <= j < count && j < from + 1 implies !(#[trigger] group_area(
            panel,
            j,
            true,
        )).covers(point) by {
            assert(j == from);
        }
    }
}

/// What the notification centre does with a press while only the control centre
/// could be above it: outside of its panel it closes; on the panel the card
/// that was hit is read, and a press beside all cards does nothing.
pub proof fn the_notification_centre_passes_on_what_was_hit(facts: PressFacts, point: Point)
    requires
        !facts.shell.control_open && facts.shell.notifications_open,
    ensures
        ({
            let action = press_below(facts, point);
            let count = facts.notification_groups;
            let panel = panel_area(facts.work_area, facts.bar_height, true, count as nat);
            &&& action == PressAction::CloseNotifications <==> !panel.covers(point)
            &&& panel.covers(point) ==> match action {
                PressAction::ReadNotifications(index) => index < count && group_area(
                    panel,
                    index as nat,
                    true,
                ).covers(point),
                _ => action == PressAction::Consume && forall|j: nat|
                    j < count ==> !(#[trigger] group_area(panel, j, true)).covers(point),
            }
        }),
{
    let count = facts.notification_groups as nat;
    let panel = panel_area(facts.work_area, facts.bar_height, true, count);
    found_groups_are_first(panel, count, 0, point);
}

/// What takes a press before the open surfaces do: the removal popup takes
/// every one; then the welcome, which a press dismisses only where it tells of
/// an update and has ended; then setup, which a press on its button continues.
/// The open terminal takes what hits it, and the top bar is asked where it has
/// an item. Anything else goes on to the surfaces below.
pub proof fn presses_are_taken_from_the_top(facts: PressFacts, point: Point)
    ensures
        ({
            let action = press_at(facts, point);
            let welcome = facts.shell.welcome is Some;
            let setup = !facts.shell.remove_popup && !welcome && facts.shell.setup_open;
            let on_button = button_area(facts.work_area).covers(point);
            &&& action == PressAction::RemovePopup <==> facts.shell.remove_popup
            &&& action == PressAction::DismissUpdate <==> !facts.shell.remove_popup
                && facts.shell.welcome == Some(WelcomeStage::Update) && facts.update_finished
            &&& !facts.shell.remove_popup && welcome && !(facts.shell.welcome == Some(
                WelcomeStage::Update,
            ) && facts.update_finished) ==> action == PressAction::Consume
            &&& action == PressAction::ContinueSetup <==> setup && on_button
            &&& setup && !on_button ==> action == PressAction::Consume
            &&& action == PressAction::AskTopBar <==> !facts.shell.remove_popup && !welcome
                && !facts.shell.setup_open && (facts.shell.terminal_open ==> facts.terminal
                == TerminalHit::Outside) && facts.topbar_item
            &&& comes_to_the_surfaces(facts) ==> action == press_below(facts, point)
        }),
{
    match facts.shell.welcome {
        Some(WelcomeStage::Update) => {},
        Some(WelcomeStage::FirstRun) => {},
        None => {},
    }
}

/// What the terminal does with a press that hits it: each part does its own,
/// a tab by its own number; its content, its title and its frame only take the
/// focus.
pub proof fn the_terminal_passes_on_what_was_hit(facts: PressFacts, point: Point, index: usize)
    requires
        !facts.shell.remove_popup && facts.shell.welcome is None && !facts.shell.setup_open,
        facts.shell.terminal_open,
    ensures
        ({
            let action = press_at(facts, point);
            let hit = facts.terminal;
            &&& action == PressAction::NewTab <==> hit == TerminalHit::NewTab
            &&& action == PressAction::CloseTab(index) <==> hit == TerminalHit::CloseTab(index)
            &&& action == PressAction::SelectTab(index) <==> hit == TerminalHit::Tab(index)
            &&& action == PressAction::EditTitle <==> hit == TerminalHit::TitleEdit
            &&& action == PressAction::CycleTheme <==> hit == TerminalHit::Theme
            &&& action == PressAction::ToggleTransparency <==> hit == TerminalHit::Transparency
            &&& action == PressAction::ToggleBlur <==> hit == TerminalHit::Blur
            &&& action == PressAction::FocusTerminal <==> hit == TerminalHit::Content || hit
                == TerminalHit::Title || hit == TerminalHit::Window
        }),
{
}

/// Which presses ask for a frame only where their action did something, and
/// which never do: all others always ask for one.
pub proof fn frames_follow_the_action(action: PressAction)
    ensures
        action_reports(action) <==> {
            ||| action is RemovePopup || action is DismissUpdate || action is ContinueSetup
            ||| action is NewTab || action is CloseTab || action is SelectTab || action is EditTitle
            ||| action is CycleTheme || action is ToggleTransparency || action is ToggleBlur
            ||| action is ActivateApp || action is ActivateTile || action is ActivateIcon
        },
        draws_nothing(action) <==> action is Ignore || (action matches PressAction::Window {
            id,
            action: chrome,
        } && chrome == ChromeAction::Client),
        !(action_reports(action) && draws_nothing(action)),
{
}

/// A second press on a title bar doubles the first one within 400 milliseconds
/// and on the same spot, and not otherwise.
pub proof fn double_presses_are_quick_and_near(bar: TitleBar, now_ms: u64, same_spot: bool)
    ensures
        bar.doubles(now_ms, same_spot) <==> same_spot && (bar.last matches Some(spot) && now_ms
            <= spot.at_ms + 400),
{
}

/// What a button does: a resting or locked session takes a primary press and
/// swallows the rest; else a primary press goes to the shell unless it is
/// grabbed, a primary release lets go of the widget under the pointer or of
/// whatever is held, and any other button goes to the client.
pub proof fn buttons_do_this(
    shell: ShellState,
    pressed: bool,
    primary: bool,
    grabbed: bool,
    widget: Option<usize>,
    index: usize,
)
    ensures
        ({
            let step = button_step(shell, pressed, primary, grabbed, widget);
            let away = shell.session == SessionScreen::Rest || shell.session
                == SessionScreen::Lock;
            &&& step == ButtonStep::SessionPress <==> away && pressed && primary
            &&& step == ButtonStep::SessionSwallow <==> away && !(pressed && primary)
            &&& step == ButtonStep::Dispatch <==> !away && pressed && primary && !grabbed
            &&& step == ButtonStep::WidgetRelease(index) <==> !away && !pressed && primary && widget
                == Some(index)
            &&& step == ButtonStep::EndHold <==> !away && !pressed && primary && widget is None
            &&& step == ButtonStep::Pass <==> !away && (!primary || (pressed && grabbed))
        }),
{
}

/// Only the primary button is counted: one more for a press, one less for a
/// release, and never less than none.
pub proof fn held_buttons_are_counted(held: int, pressed: bool, primary: bool)
    requires
        held >= 0,
    ensures
        !primary ==> held_after(held, pressed, primary) == held,
        primary && pressed ==> held_after(held, pressed, primary) == held + 1,
        primary && !pressed && held > 0 ==> held_after(held, pressed, primary) == held - 1,
        primary && !pressed && held == 0 ==> held_after(held, pressed, primary) == 0,
{
}

/// The band of the dock is the lowest 128 pixels of the work area, or all of it
/// where it is lower. (The work area lies within 32 bits.)
pub proof fn the_dock_band_is_at_the_bottom(work_area: Rect, point: Point)
    requires
        work_area.size.width >= 0 && work_area.size.height >= 128,
        work_area.origin.x + work_area.size.width <= i32::MAX,
        work_area.origin.y + work_area.size.height <= i32::MAX,
    ensures
        dock_band(work_area).covers(point) <==> {
            &&& work_area.origin.x <= point.x && point.x - work_area.origin.x
                < work_area.size.width
            &&& point.y < work_area.origin.y + work_area.size.height
            &&& point.y >= work_area.origin.y + work_area.size.height - 128
        },
{
}

/// Motion asks for a frame where it enters or leaves the band of the dock or
/// moves sideways inside of it, or where a position cannot be told; elsewhere
/// it never does, nor does motion straight up or down inside of the band.
pub proof fn motion_redraws_the_dock_alone(work_area: Rect, previous: (u64, u64), next: (u64, u64))
    ensures
        ({
            let band = dock_band(work_area);
            match (pixel_of(previous.0, previous.1), pixel_of(next.0, next.1)) {
                (Some(a), Some(b)) => {
                    let was = band.covers(Point { x: a.x, y: a.y });
                    let there = band.covers(Point { x: b.x, y: b.y });
                    &&& was != there ==> motion_redraws(work_area, previous, next)
                    &&& !was && !there ==> !motion_redraws(work_area, previous, next)
                    &&& was && there ==> (motion_redraws(work_area, previous, next) <==> a.x != b.x)
                },
                _ => motion_redraws(work_area, previous, next),
            }
        }),
{
}

/// Two presses on the same spot within 400 milliseconds toggle the maximized
/// state, where the first began a drag; the press that follows begins another
/// drag, however quick it is.
pub proof fn double_presses_toggle_once(
    bar: TitleBar,
    first: TitleSpot,
    second: TitleSpot,
    third: TitleSpot,
    same_spot: bool,
)
    requires
        bar.last is None,
        first.at_ms <= second.at_ms,
    ensures
        bar.title_press(first, same_spot) == TitlePress::Drag,
        ({
            let once = TitleBar { last: bar.remembered(first, same_spot) };
            let twice = TitleBar { last: once.remembered(second, true) };
            &&& once.title_press(second, true) == TitlePress::ToggleMaximize <==> second.at_ms
                - first.at_ms <= 400
            &&& once.title_press(second, false) == TitlePress::Drag
            &&& second.at_ms - first.at_ms <= 400 ==> twice.title_press(third, true)
                == TitlePress::Drag
        }),
{
}

/// How buttons end: a press of the session's screens always asks for a frame and
/// never reaches a client; a press of the shell and a release of a widget ask for
/// one where they reported so; and while the terminal is or was open a client gets
/// no button of what is left.
pub proof fn buttons_end_like_this(step: ButtonStep, answer: bool, terminal: bool)
    ensures
        button_redraws(step, answer) <==> step == ButtonStep::SessionPress || (answer && (step
            == ButtonStep::Dispatch || step is WidgetRelease)),
        button_forwards(step, terminal) == Forwarding::Nothing <==> step
            == ButtonStep::SessionPress || step == ButtonStep::SessionSwallow,
        button_forwards(step, terminal) == Forwarding::Button <==> !terminal && step
            != ButtonStep::SessionPress && step != ButtonStep::SessionSwallow,
{
}

/// The first motion asks for a frame, and so does a drag; any other does as the
/// dock needs it. A press asks for one where its action did something, or where it
/// always does.
pub proof fn frames_are_asked_for(
    work_area: Rect,
    previous: (u64, u64),
    next: (u64, u64),
    action: PressAction,
    answer: bool,
)
    ensures
        motion_asks(work_area, None, next, false),
        motion_asks(work_area, Some(previous), next, true),
        motion_asks(work_area, Some(previous), next, false) <==> motion_redraws(
            work_area,
            previous,
            next,
        ),
        action_reports(action) ==> press_asks(action, answer) == answer,
        action == PressAction::Ignore ==> !press_asks(action, answer),
        action is Consume || action is SelectCategory || action is CloseLauncher
            || action is ShowPane || action is SetToggle || action is ClearFocus ==> press_asks(
            action,
            answer,
        ),
{
}

} // verus!
