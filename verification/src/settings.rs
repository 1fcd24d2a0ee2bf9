//! The panes of the settings: their rows, and what a change does.

use crate::app_store::copy_texts;
use crate::text::{
    concat2, decimal, decimal_text, is_digit, join, joined, option_str_view, parse_number, parsed,
    parsing_undoes_decimal, same, trim, trimmed, views, views_push, white,
};
use vstd::prelude::*;
use vstd::string::*;

verus! {

#[derive(Debug, Clone, Copy, PartialEq, Eq, Structural)]
pub enum Pane {
    Wifi,
    Bluetooth,
    Appearance,
    Notifications,
    Displays,
    Sound,
    Performance,
    GameMode,
    System,
    Widgets,
    Wallpaper,
    Users,
    Mouse,
    Keyboard,
}

#[derive(Debug, Clone, Copy, PartialEq, Eq, Structural)]
pub enum SettingTone {
    Neutral,
    Positive,
    Warning,
    Muted,
}

/// One row of a pane. Slider values are binary32 bit patterns.
#[derive(Debug, Clone, PartialEq, Eq)]
pub enum Setting {
    Section { title: String, description: String },
    Toggle { key: &'static str, label: String, value: bool },
    Slider { key: &'static str, label: String, value: u32, min: u32, max: u32 },
    Select { key: &'static str, label: String, options: Vec<String>, selected: usize },
    Info { label: String, value: String },
    Status { label: String, value: String, detail: String, tone: SettingTone },
    Action { key: &'static str, label: String },
    UserCard,
}

#[verifier::ext_equal]
pub enum Row {
    Section { title: Seq<char>, description: Seq<char> },
    Toggle { key: Seq<char>, label: Seq<char>, value: bool },
    Slider { key: Seq<char>, label: Seq<char>, value: u32, min: u32, max: u32 },
    Select { key: Seq<char>, label: Seq<char>, options: Seq<Seq<char>>, selected: usize },
    Info { label: Seq<char>, value: Seq<char> },
    Status { label: Seq<char>, value: Seq<char>, detail: Seq<char>, tone: SettingTone },
    Action { key: Seq<char>, label: Seq<char> },
    UserCard,
}

impl View for Setting {
    type V = Row;

    open spec fn view(&self) -> Row {
        match *self {
            Setting::Section { title, description } => Row::Section {
                title: title@,
                description: description@,
            },
            Setting::Toggle { key, label, value } => Row::Toggle { key: key@, label: label@, value },
            Setting::Slider { key, label, value, min, max } => Row::Slider {
                key: key@,
                label: label@,
                value,
                min,
                max,
            },
            Setting::Select { key, label, options, selected } => Row::Select {
                key: key@,
                label: label@,
                options: views(options@),
                selected,
            },
            Setting::Info { label, value } => Row::Info { label: label@, value: value@ },
            Setting::Status { label, value, detail, tone } => Row::Status {
                label: label@,
                value: value@,
                detail: detail@,
                tone,
            },
            Setting::Action { key, label } => Row::Action { key: key@, label: label@ },
            Setting::UserCard => Row::UserCard,
        }
    }
}

pub open spec fn rows_of(list: Seq<Setting>) -> Seq<Row> {
    Seq::new(list.len(), |i: int| list[i]@)
}

/// A pane that is being written.
#[derive(Debug, Clone, PartialEq, Eq)]
pub struct Rows {
    pub list: Vec<Setting>,
}

impl View for Rows {
    type V = Seq<Row>;

    open spec fn view(&self) -> Seq<Row> {
        rows_of(self.list@)
    }
}

impl Rows {
    fn new() -> (rows: Self)
        ensures
            rows@ == Seq::<Row>::empty(),
    {
        let rows = Rows { list: Vec::new() };
        assert(rows@ =~= Seq::<Row>::empty());
        rows
    }

    fn put(&mut self, row: Setting)
        ensures
            final(self)@ == old(self)@.push(row@),
    {
        let ghost before = self@;
        self.list.push(row);
        assert(self@ =~= before.push(row@));
    }

    fn info(&mut self, label: &str, value: &str)
        ensures
            final(self)@ == old(self)@.push(Row::Info { label: label@, value: value@ }),
    {
        self.put(Setting::Info { label: label.to_owned(), value: value.to_owned() });
    }

    /// An info whose value may be unknown.
    fn info_or(&mut self, label: &str, value: &Option<String>, unknown: &str)
        ensures
            final(self)@ == old(self)@.push(
                Row::Info { label: label@, value: known(*value, unknown@) },
            ),
    {
        match value {
            Some(text) => self.info(label, text.as_str()),
            None => self.info(label, unknown),
        }
    }

    fn action(&mut self, key: &'static str, label: &str)
        ensures
            final(self)@ == old(self)@.push(Row::Action { key: key@, label: label@ }),
    {
        self.put(Setting::Action { key, label: label.to_owned() });
    }

    fn toggle(&mut self, key: &'static str, label: &str, value: bool)
        ensures
            final(self)@ == old(self)@.push(Row::Toggle { key: key@, label: label@, value }),
    {
        self.put(Setting::Toggle { key, label: label.to_owned(), value });
    }

    /// A slider from zero to one.
    fn slider(&mut self, key: &'static str, label: &str, value: u32)
        ensures
            final(self)@ == old(self)@.push(unit_slider(key@, label@, value)),
    {
        self.put(
            Setting::Slider { key, label: label.to_owned(), value, min: 0, max: 0x3f80_0000 },
        );
    }

    fn select(&mut self, key: &'static str, label: &str, options: Vec<String>, selected: usize)
        ensures
            final(self)@ == old(self)@.push(
                Row::Select { key: key@, label: label@, options: views(options@), selected },
            ),
    {
        self.put(Setting::Select { key, label: label.to_owned(), options, selected });
    }
}

pub open spec fn unit_slider(key: Seq<char>, label: Seq<char>, value: u32) -> Row {
    Row::Slider { key, label, value, min: 0, max: 0x3f80_0000 }
}

/// A text, or what stands for it where it is not known.
pub open spec fn known(text: Option<String>, unknown: Seq<char>) -> Seq<char> {
    match text {
        Some(t) => t@,
        None => unknown,
    }
}

fn add_text(list: &mut Vec<String>, text: &str)
    ensures
        views(final(list)@) == views(old(list)@).push(text@),
{
    let ghost before = list@;
    let copy = text.to_owned();
    proof {
        views_push(before, copy);
    }
    list.push(copy);
}

fn no_texts() -> (list: Vec<String>)
    ensures
        views(list@) == Seq::<Seq<char>>::empty(),
{
    let list: Vec<String> = Vec::new();
    assert(views(list@) =~= Seq::<Seq<char>>::empty());
    list
}

// ---- stored preferences ----------------------------------------------------------------

/// A stored switch: the words for on and off, or the default for any other.
pub open spec fn stored_switch(raw: Seq<char>, default: bool) -> bool {
    let word = trimmed(raw);
    if word == "1"@ || word == "true"@ || word == "on"@ || word == "yes"@ {
        true
    } else if word == "0"@ || word == "false"@ || word == "off"@ || word == "no"@ {
        false
    } else {
        default
    }
}

/// Reads a stored switch.
pub fn config_bool(raw: &str, default: bool) -> (on: bool)
    ensures
        on == stored_switch(raw@, default),
{
    let trimmed_word = trim(raw);
    let word = trimmed_word.as_str();
    if same(word, "1") || same(word, "true") || same(word, "on") || same(word, "yes") {
        true
    } else if same(word, "0") || same(word, "false") || same(word, "off") || same(word, "no") {
        false
    } else {
        default
    }
}

/// A stored number, or the default where it is none.
pub open spec fn stored_number(raw: Seq<char>, default: usize) -> usize {
    match parsed(raw, usize::MAX as nat) {
        Some(n) => n as usize,
        None => default,
    }
}

fn number_or(raw: &str, default: usize) -> (n: usize)
    ensures
        n == stored_number(raw@, default),
{
    match parse_number(raw, usize::MAX as u64) {
        Some(n) => n as usize,
        None => default,
    }
}

/// Reads a stored choice; white space around it does not count.
pub fn config_choice(raw: &str, default: usize) -> (choice: usize)
    ensures
        choice == stored_number(trimmed(raw@), default),
{
    let word = trim(raw);
    number_or(word.as_str(), default)
}

/// A stored truth value: exactly `true` or `false`, or the default.
pub open spec fn stored_truth(raw: Seq<char>, default: bool) -> bool {
    if raw == "true"@ {
        true
    } else if raw == "false"@ {
        false
    } else {
        default
    }
}

fn truth_or(raw: &str, default: bool) -> (on: bool)
    ensures
        on == stored_truth(raw@, default),
{
    if same(raw, "true") {
        true
    } else if same(raw, "false") {
        false
    } else {
        default
    }
}

#[derive(Debug, Clone, Copy, PartialEq, Eq, Structural)]
pub enum GameModeChoice {
    Auto,
    On,
    Off,
}

impl GameModeChoice {
    pub open spec fn number(self) -> usize {
        match self {
            GameModeChoice::Auto => 0,
            GameModeChoice::On => 1,
            GameModeChoice::Off => 2,
        }
    }

    pub fn index(self) -> (n: usize)
        ensures
            n == self.number(),
    {
        match self {
            GameModeChoice::Auto => 0,
            GameModeChoice::On => 1,
            GameModeChoice::Off => 2,
        }
    }

    pub open spec fn of_number(n: usize) -> Self {
        if n == 1 {
            GameModeChoice::On
        } else if n == 2 {
            GameModeChoice::Off
        } else {
            GameModeChoice::Auto
        }
    }

    pub fn from_index(n: usize) -> (choice: Self)
        ensures
            choice == Self::of_number(n),
    {
        match n {
            1 => GameModeChoice::On,
            2 => GameModeChoice::Off,
            _ => GameModeChoice::Auto,
        }
    }

    pub open spec fn word(self) -> Seq<char> {
        match self {
            GameModeChoice::Auto => "auto"@,
            GameModeChoice::On => "on"@,
            GameModeChoice::Off => "off"@,
        }
    }

    pub fn config_value(self) -> (text: &'static str)
        ensures
            text@ == self.word(),
    {
        match self {
            GameModeChoice::Auto => "auto",
            GameModeChoice::On => "on",
            GameModeChoice::Off => "off",
        }
    }
}

pub open spec fn stored_game_mode(raw: Seq<char>) -> GameModeChoice {
    let word = trimmed(raw);
    if word == "on"@ || word == "1"@ || word == "true"@ {
        GameModeChoice::On
    } else if word == "off"@ || word == "2"@ || word == "false"@ {
        GameModeChoice::Off
    } else {
        GameModeChoice::Auto
    }
}

/// Reads the stored game mode; anything unknown is automatic.
pub fn game_mode_choice(raw: &str) -> (choice: GameModeChoice)
    ensures
        choice == stored_game_mode(raw@),
{
    let trimmed_word = trim(raw);
    let word = trimmed_word.as_str();
    if same(word, "on") || same(word, "1") || same(word, "true") {
        GameModeChoice::On
    } else if same(word, "off") || same(word, "2") || same(word, "false") {
        GameModeChoice::Off
    } else {
        GameModeChoice::Auto
    }
}

// ---- what the rows show ----------------------------------------------------------------

/// The switches and levels that the shell holds. Levels are binary32 bit
/// patterns.
#[derive(Debug, Clone, Copy, PartialEq, Eq, Structural)]
pub struct ShellToggles {
    pub dark_mode: bool,
    pub focus: bool,
    pub battery_saver: bool,
    pub brightness: u32,
    pub volume: u32,
}

/// The stored preferences as they were read; `0` stands for one that is not
/// there. The tracking speed is a binary32 bit pattern.
#[derive(Debug, Clone, PartialEq, Eq)]
pub struct StoredConfig {
    pub appearance: String,
    pub notifications_enabled: String,
    pub notifications_dnd: String,
    pub notifications_sounds: String,
    pub notifications_position: String,
    pub graphics_backend: String,
    pub reduce_transparency: String,
    pub widgets: String,
    pub wallpaper: String,
    pub avatar: String,
    pub natural: String,
    pub repeat: String,
    pub mouse_speed: u32,
}

/// What the system tells.
#[derive(Debug, Clone, PartialEq, Eq)]
pub struct SystemFacts {
    pub network_name: Option<String>,
    pub wifi_interface: Option<String>,
    pub bluetooth_powered: bool,
    pub bluetooth_devices: Vec<String>,
    pub display_resolution: Option<String>,
    pub default_sink: Option<String>,
    pub swap_status: String,
    pub recommended_swap: String,
    pub hostname: String,
    pub distribution: String,
    pub kernel: String,
    pub cpu: String,
    pub memory: String,
    pub keyboard_layout: String,
    pub mice: Vec<String>,
    pub keyboards: Vec<String>,
    pub avatar_marks: Vec<String>,
}

/// What is known of the game in the foreground, and how it reads.
#[derive(Debug, Clone, PartialEq, Eq)]
pub struct GameModeSnapshot {
    pub choice: GameModeChoice,
    pub options: Vec<String>,
    pub detector_ready: bool,
    pub automatic_eligible: bool,
    pub policy_active: bool,
    pub detected: bool,
    pub policy_label: String,
    pub detection_label: String,
    pub confidence_label: String,
    pub reasons_label: String,
    pub cache_label: String,
}

/// The settings application: the facts of the last reading, and the game mode.
#[derive(Debug, Clone, PartialEq, Eq)]
pub struct SettingsBackend {
    pub facts: SystemFacts,
    pub config: StoredConfig,
    pub game_mode: GameModeSnapshot,
}

pub open spec fn wifi_model(facts: SystemFacts) -> Seq<Row> {
    Seq::<Row>::empty().push(
        Row::Info { label: "Network"@, value: known(facts.network_name, "Off"@) },
    ).push(
        Row::Info { label: "Interface"@, value: known(facts.wifi_interface, "none"@) },
    ).push(Row::Action { key: "turn_on"@, label: "Turn Wi-Fi On"@ }).push(
        Row::Action { key: "turn_off"@, label: "Turn Wi-Fi Off"@ },
    )
}

pub open spec fn paired_model(before: Seq<Row>, devices: Seq<Seq<char>>) -> Seq<Row>
    decreases devices.len(),
{
    if devices.len() == 0 {
        before
    } else {
        paired_model(before, devices.drop_last()).push(
            Row::Info { label: devices.last(), value: "Paired"@ },
        )
    }
}

pub open spec fn bluetooth_model(facts: SystemFacts) -> Seq<Row> {
    paired_model(
        Seq::<Row>::empty().push(
            Row::Info {
                label: "Powered"@,
                value: if facts.bluetooth_powered {
                    "Yes"@
                } else {
                    "No"@
                },
            },
        ).push(Row::Action { key: "turn_on"@, label: "Turn Bluetooth On"@ }).push(
            Row::Action { key: "turn_off"@, label: "Turn Bluetooth Off"@ },
        ),
        views(facts.bluetooth_devices@),
    )
}

pub open spec fn accents() -> Seq<Seq<char>> {
    Seq::<Seq<char>>::empty().push("Ocean"@).push("Sky"@).push("Meadow"@).push("Ember"@).push(
        "Frost"@,
    )
}

pub open spec fn appearance_model(config: StoredConfig, toggles: ShellToggles) -> Seq<Row> {
    Seq::<Row>::empty().push(
        Row::Toggle { key: "dark_mode"@, label: "Dark Mode"@, value: toggles.dark_mode },
    ).push(Row::Toggle { key: "focus"@, label: "Focus"@, value: toggles.focus }).push(
        Row::Toggle {
            key: "battery_saver"@,
            label: "Battery Saver"@,
            value: toggles.battery_saver,
        },
    ).push(
        Row::Select {
            key: "accent"@,
            label: "Accent"@,
            options: accents(),
            selected: stored_number(config.appearance@, 0),
        },
    )
}

pub open spec fn positions() -> Seq<Seq<char>> {
    Seq::<Seq<char>>::empty().push("Top Right"@).push("Bottom Right"@)
}

pub open spec fn notifications_model(config: StoredConfig) -> Seq<Row> {
    Seq::<Row>::empty().push(
        Row::Toggle {
            key: "notifications.enabled"@,
            label: "Allow Notifications"@,
            value: stored_switch(config.notifications_enabled@, true),
        },
    ).push(
        Row::Toggle {
            key: "notifications.dnd"@,
            label: "Do Not Disturb"@,
            value: stored_switch(config.notifications_dnd@, false),
        },
    ).push(
        Row::Toggle {
            key: "notifications.sounds"@,
            label: "Notification Sounds"@,
            value: stored_switch(config.notifications_sounds@, true),
        },
    ).push(
        Row::Select {
            key: "notifications.position"@,
            label: "Delivery Position"@,
            options: positions(),
            selected: stored_number(trimmed(config.notifications_position@), 0),
        },
    ).push(Row::Action { key: "notifications.clear"@, label: "Clear Notification History"@ })
}

pub open spec fn displays_model(facts: SystemFacts, toggles: ShellToggles) -> Seq<Row> {
    Seq::<Row>::empty().push(
        Row::Info { label: "Resolution"@, value: known(facts.display_resolution, "unknown"@) },
    ).push(unit_slider("brightness"@, "Brightness"@, toggles.brightness))
}

pub open spec fn sound_model(facts: SystemFacts, toggles: ShellToggles) -> Seq<Row> {
    Seq::<Row>::empty().push(
        Row::Info { label: "Output"@, value: known(facts.default_sink, "unknown"@) },
    ).push(unit_slider("volume"@, "Volume"@, toggles.volume)).push(
        Row::Action { key: "mute"@, label: "Toggle Mute"@ },
    )
}

pub open spec fn renderers() -> Seq<Seq<char>> {
    Seq::<Seq<char>>::empty().push("Vulkan (preferred)"@).push("OpenGL (fallback)"@).push(
        "Opaque fallback"@,
    )
}

pub open spec fn performance_model(facts: SystemFacts, config: StoredConfig) -> Seq<Row> {
    Seq::<Row>::empty().push(
        Row::Info { label: "Active Renderer"@, value: "OpenGL (nested Winit)"@ },
    ).push(
        Row::Select {
            key: "graphics.backend"@,
            label: "Renderer Preference"@,
            options: renderers(),
            selected: stored_number(trimmed(config.graphics_backend@), 0),
        },
    ).push(
        Row::Toggle {
            key: "reduce_transparency"@,
            label: "Reduce Transparency"@,
            value: stored_switch(config.reduce_transparency@, false),
        },
    ).push(Row::Info { label: "Swapfile"@, value: facts.swap_status@ }).push(
        Row::Info { label: "Recommended"@, value: facts.recommended_swap@ },
    ).push(Row::Action { key: "swap.recommend"@, label: "Review Swapfile Plan"@ })
}

pub open spec fn game_mode_tone(snapshot: GameModeSnapshot) -> SettingTone {
    if !snapshot.detector_ready {
        SettingTone::Muted
    } else if snapshot.automatic_eligible || snapshot.policy_active {
        SettingTone::Positive
    } else if snapshot.detected {
        SettingTone::Warning
    } else {
        SettingTone::Neutral
    }
}

/// The policy; one that is not in force is only a preview.
pub open spec fn policy_text(snapshot: GameModeSnapshot) -> Seq<char> {
    if snapshot.policy_active {
        snapshot.policy_label@
    } else {
        "Preview: "@ + snapshot.policy_label@
    }
}

pub open spec fn game_mode_model(snapshot: GameModeSnapshot) -> Seq<Row> {
    Seq::<Row>::empty().push(
        Row::Section {
            title: "Game Mode / Modo Jogo"@,
            description: "Reduz trabalho nao essencial do jogo em primeiro plano; entrada, audio, seguranca e compositor continuam ativos."@,
        },
    ).push(
        Row::Select {
            key: "game_mode.mode"@,
            label: "Mode / Modo"@,
            options: views(snapshot.options@),
            selected: snapshot.choice.number(),
        },
    ).push(
        Row::Status {
            label: "Current detection / Deteccao atual"@,
            value: snapshot.detection_label@,
            detail: "Confianca: "@ + snapshot.confidence_label@,
            tone: game_mode_tone(snapshot),
        },
    ).push(
        Row::Info { label: "Evidence / Evidencias"@, value: snapshot.reasons_label@ },
    ).push(Row::Info { label: "Policy / Politica"@, value: policy_text(snapshot) }).push(
        Row::Action { key: "game_mode.preview"@, label: "Preview policy / Previa"@ },
    ).push(Row::Action { key: "game_mode.restore"@, label: "Restore / Restaurar"@ }).push(
        Row::Info {
            label: "Temporary cache / Cache temporario"@,
            value: snapshot.cache_label@,
        },
    )
}

pub open spec fn system_model(facts: SystemFacts, profile: Seq<char>) -> Seq<Row> {
    Seq::<Row>::empty().push(Row::Info { label: "User"@, value: profile }).push(
        Row::Info { label: "Host"@, value: facts.hostname@ },
    ).push(Row::Info { label: "Distribution"@, value: facts.distribution@ }).push(
        Row::Info { label: "Kernel"@, value: facts.kernel@ },
    ).push(Row::Info { label: "CPU"@, value: facts.cpu@ }).push(
        Row::Info { label: "Memory"@, value: facts.memory@ },
    )
}

pub open spec fn widgets_model(config: StoredConfig) -> Seq<Row> {
    Seq::<Row>::empty().push(
        Row::Select {
            key: "layout"@,
            label: "Layout"@,
            options: Seq::<Seq<char>>::empty().push("Rail"@).push("Hidden"@),
            selected: stored_number(config.widgets@, 0),
        },
    ).push(Row::Action { key: "reset_board"@, label: "Reset Widget Board"@ })
}

pub open spec fn wallpaper_model(config: StoredConfig) -> Seq<Row> {
    Seq::<Row>::empty().push(
        Row::Select {
            key: "source"@,
            label: "Source"@,
            options: Seq::<Seq<char>>::empty().push("Wallpaper.webp"@).push("Solid"@).push("None"@),
            selected: stored_number(config.wallpaper@, 0),
        },
    ).push(Row::Action { key: "pick_image"@, label: "Pick Image..."@ })
}

pub open spec fn users_model(facts: SystemFacts, config: StoredConfig, profile: Seq<char>) -> Seq<Row> {
    Seq::<Row>::empty().push(Row::UserCard).push(Row::Info { label: "Name"@, value: profile }).push(
        Row::Select {
            key: "mark"@,
            label: "Avatar Mark"@,
            options: views(facts.avatar_marks@),
            selected: stored_number(config.avatar@, 0),
        },
    ).push(Row::Action { key: "change_avatar"@, label: "Change Avatar..."@ })
}

pub open spec fn mouse_model(facts: SystemFacts, config: StoredConfig) -> Seq<Row> {
    Seq::<Row>::empty().push(unit_slider("speed"@, "Tracking Speed"@, config.mouse_speed)).push(
        Row::Toggle {
            key: "natural_scroll"@,
            label: "Natural Scrolling"@,
            value: stored_truth(config.natural@, false),
        },
    ).push(Row::Info { label: "Devices"@, value: joined(views(facts.mice@), ", "@) })
}

pub open spec fn keyboard_model(facts: SystemFacts, config: StoredConfig) -> Seq<Row> {
    Seq::<Row>::empty().push(Row::Info { label: "Layout"@, value: facts.keyboard_layout@ }).push(
        Row::Toggle {
            key: "repeat_keys"@,
            label: "Key Repeat"@,
            value: stored_truth(config.repeat@, true),
        },
    ).push(Row::Info { label: "Devices"@, value: joined(views(facts.keyboards@), ", "@) })
}

/// The rows of a pane.
pub open spec fn pane_model(
    backend: SettingsBackend,
    pane: Pane,
    profile: Seq<char>,
    toggles: ShellToggles,
) -> Seq<Row> {
    let (facts, config) = (backend.facts, backend.config);
    match pane {
        Pane::Wifi => wifi_model(facts),
        Pane::Bluetooth => bluetooth_model(facts),
        Pane::Appearance => appearance_model(config, toggles),
        Pane::Notifications => notifications_model(config),
        Pane::Displays => displays_model(facts, toggles),
        Pane::Sound => sound_model(facts, toggles),
        Pane::Performance => performance_model(facts, config),
        Pane::GameMode => game_mode_model(backend.game_mode),
        Pane::System => system_model(facts, profile),
        Pane::Widgets => widgets_model(config),
        Pane::Wallpaper => wallpaper_model(config),
        Pane::Users => users_model(facts, config, profile),
        Pane::Mouse => mouse_model(facts, config),
        Pane::Keyboard => keyboard_model(facts, config),
    }
}

impl SettingsBackend {
    pub fn new(facts: SystemFacts, config: StoredConfig, game_mode: GameModeSnapshot) -> (backend:
        Self)
        ensures
            backend.facts == facts,
            backend.config == config,
            backend.game_mode == game_mode,
    {
        SettingsBackend { facts, config, game_mode }
    }

    /// The last snapshot of the game mode. Settings only show it.
    pub fn game_mode_snapshot(&self) -> (snapshot: &GameModeSnapshot)
        ensures
            *snapshot == self.game_mode,
    {
        &self.game_mode
    }

    pub fn set_game_mode_snapshot(&mut self, snapshot: GameModeSnapshot)
        ensures
            final(self).game_mode == snapshot,
            final(self).facts == old(self).facts,
            final(self).config == old(self).config,
    {
        self.game_mode = snapshot;
    }

    fn wifi_rows(&self) -> (rows: Rows)
        ensures
            rows@ == wifi_model(self.facts),
    {
        let mut rows = Rows::new();
        rows.info_or("Network", &self.facts.network_name, "Off");
        rows.info_or("Interface", &self.facts.wifi_interface, "none");
        rows.action("turn_on", "Turn Wi-Fi On");
        rows.action("turn_off", "Turn Wi-Fi Off");
        rows
    }

    fn bluetooth_rows(&self) -> (rows: Rows)
        ensures
            rows@ == bluetooth_model(self.facts),
    {
        let mut rows = Rows::new();
        rows.info(
            "Powered",
            if self.facts.bluetooth_powered {
                "Yes"
            } else {
                "No"
            },
        );
        rows.action("turn_on", "Turn Bluetooth On");
        rows.action("turn_off", "Turn Bluetooth Off");
        let ghost fixed = rows@;
        let ghost names = views(self.facts.bluetooth_devices@);
        let mut i: usize = 0;
        assert(names.subrange(0, 0) =~= Seq::<Seq<char>>::empty());
        while i < self.facts.bluetooth_devices.len()
            invariant
                i <= self.facts.bluetooth_devices.len(),
                names == views(self.facts.bluetooth_devices@),
                rows@ == paired_model(fixed, names.subrange(0, i as int)),
            decreases self.facts.bluetooth_devices.len() - i,
        {
            let ghost next = names.subrange(0, i + 1);
            assert(next.drop_last() =~= names.subrange(0, i as int));
            assert(next.last() == self.facts.bluetooth_devices@[i as int]@);
            rows.info(self.facts.bluetooth_devices[i].as_str(), "Paired");
            i += 1;
        }
        assert(names.subrange(0, i as int) =~= names);
        rows
    }

    fn appearance_rows(&self, toggles: &ShellToggles) -> (rows: Rows)
        ensures
            rows@ == appearance_model(self.config, *toggles),
    {
        let mut rows = Rows::new();
        rows.toggle("dark_mode", "Dark Mode", toggles.dark_mode);
        rows.toggle("focus", "Focus", toggles.focus);
        rows.toggle("battery_saver", "Battery Saver", toggles.battery_saver);
        let mut options = no_texts();
        add_text(&mut options, "Ocean");
        add_text(&mut options, "Sky");
        add_text(&mut options, "Meadow");
        add_text(&mut options, "Ember");
        add_text(&mut options, "Frost");
        rows.select("accent", "Accent", options, number_or(self.config.appearance.as_str(), 0));
        rows
    }

    fn notifications_rows(&self) -> (rows: Rows)
        ensures
            rows@ == notifications_model(self.config),
    {
        let config = &self.config;
        let mut rows = Rows::new();
        rows.toggle(
            "notifications.enabled",
            "Allow Notifications",
            config_bool(config.notifications_enabled.as_str(), true),
        );
        rows.toggle(
            "notifications.dnd",
            "Do Not Disturb",
            config_bool(config.notifications_dnd.as_str(), false),
        );
        rows.toggle(
            "notifications.sounds",
            "Notification Sounds",
            config_bool(config.notifications_sounds.as_str(), true),
        );
        let mut options = no_texts();
        add_text(&mut options, "Top Right");
        add_text(&mut options, "Bottom Right");
        rows.select(
            "notifications.position",
            "Delivery Position",
            options,
            config_choice(config.notifications_position.as_str(), 0),
        );
        rows.action("notifications.clear", "Clear Notification History");
        rows
    }

    fn displays_rows(&self, toggles: &ShellToggles) -> (rows: Rows)
        ensures
            rows@ == displays_model(self.facts, *toggles),
    {
        let mut rows = Rows::new();
        rows.info_or("Resolution", &self.facts.display_resolution, "unknown");
        rows.slider("brightness", "Brightness", toggles.brightness);
        rows
    }

    fn sound_rows(&self, toggles: &ShellToggles) -> (rows: Rows)
        ensures
            rows@ == sound_model(self.facts, *toggles),
    {
        let mut rows = Rows::new();
        rows.info_or("Output", &self.facts.default_sink, "unknown");
        rows.slider("volume", "Volume", toggles.volume);
        rows.action("mute", "Toggle Mute");
        rows
    }

    fn performance_rows(&self) -> (rows: Rows)
        ensures
            rows@ == performance_model(self.facts, self.config),
    {
        let mut rows = Rows::new();
        rows.info("Active Renderer", "OpenGL (nested Winit)");
        let mut options = no_texts();
        add_text(&mut options, "Vulkan (preferred)");
        add_text(&mut options, "OpenGL (fallback)");
        add_text(&mut options, "Opaque fallback");
        rows.select(
            "graphics.backend",
            "Renderer Preference",
            options,
            config_choice(self.config.graphics_backend.as_str(), 0),
        );
        rows.toggle(
            "reduce_transparency",
            "Reduce Transparency",
            config_bool(self.config.reduce_transparency.as_str(), false),
        );
        rows.info("Swapfile", self.facts.swap_status.as_str());
        rows.info("Recommended", self.facts.recommended_swap.as_str());
        rows.action("swap.recommend", "Review Swapfile Plan");
        rows
    }

    fn game_mode_rows(&self) -> (rows: Rows)
        ensures
            rows@ == game_mode_model(self.game_mode),
    {
        let snapshot = &self.game_mode;
        let tone = if !snapshot.detector_ready {
            SettingTone::Muted
        } else if snapshot.automatic_eligible || snapshot.policy_active {
            SettingTone::Positive
        } else if snapshot.detected {
            SettingTone::Warning
        } else {
            SettingTone::Neutral
        };
        let policy = if snapshot.policy_active {
            snapshot.policy_label.clone()
        } else {
            concat2("Preview: ", snapshot.policy_label.as_str())
        };
        let mut rows = Rows::new();
        rows.put(
            Setting::Section {
                title: "Game Mode / Modo Jogo".to_owned(),
                description: "Reduz trabalho nao essencial do jogo em primeiro plano; entrada, audio, seguranca e compositor continuam ativos.".to_owned(),
            },
        );
        rows.select(
            "game_mode.mode",
            "Mode / Modo",
            copy_texts(&snapshot.options),
            snapshot.choice.index(),
        );
        rows.put(
            Setting::Status {
                label: "Current detection / Deteccao atual".to_owned(),
                value: snapshot.detection_label.clone(),
                detail: concat2("Confianca: ", snapshot.confidence_label.as_str()),
                tone,
            },
        );
        rows.info("Evidence / Evidencias", snapshot.reasons_label.as_str());
        rows.info("Policy / Politica", policy.as_str());
        rows.action("game_mode.preview", "Preview policy / Previa");
        rows.action("game_mode.restore", "Restore / Restaurar");
        rows.info("Temporary cache / Cache temporario", snapshot.cache_label.as_str());
        rows
    }

    fn system_rows(&self, profile: &str) -> (rows: Rows)
        ensures
            rows@ == system_model(self.facts, profile@),
    {
        let mut rows = Rows::new();
        rows.info("User", profile);
        rows.info("Host", self.facts.hostname.as_str());
        rows.info("Distribution", self.facts.distribution.as_str());
        rows.info("Kernel", self.facts.kernel.as_str());
        rows.info("CPU", self.facts.cpu.as_str());
        rows.info("Memory", self.facts.memory.as_str());
        rows
    }

    fn widgets_rows(&self) -> (rows: Rows)
        ensures
            rows@ == widgets_model(self.config),
    {
        let mut options = no_texts();
        add_text(&mut options, "Rail");
        add_text(&mut options, "Hidden");
        let mut rows = Rows::new();
        rows.select("layout", "Layout", options, number_or(self.config.widgets.as_str(), 0));
        rows.action("reset_board", "Reset Widget Board");
        rows
    }

    fn wallpaper_rows(&self) -> (rows: Rows)
        ensures
            rows@ == wallpaper_model(self.config),
    {
        let mut options = no_texts();
        add_text(&mut options, "Wallpaper.webp");
        add_text(&mut options, "Solid");
        add_text(&mut options, "None");
        let mut rows = Rows::new();
        rows.select("source", "Source", options, number_or(self.config.wallpaper.as_str(), 0));
        rows.action("pick_image", "Pick Image...");
        rows
    }

    fn users_rows(&self, profile: &str) -> (rows: Rows)
        ensures
            rows@ == users_model(self.facts, self.config, profile@),
    {
        let mut rows = Rows::new();
        rows.put(Setting::UserCard);
        rows.info("Name", profile);
        rows.select(
            "mark",
            "Avatar Mark",
            copy_texts(&self.facts.avatar_marks),
            number_or(self.config.avatar.as_str(), 0),
        );
        rows.action("change_avatar", "Change Avatar...");
        rows
    }

    fn mouse_rows(&self) -> (rows: Rows)
        ensures
            rows@ == mouse_model(self.facts, self.config),
    {
        let mut rows = Rows::new();
        rows.slider("speed", "Tracking Speed", self.config.mouse_speed);
        rows.toggle(
            "natural_scroll",
            "Natural Scrolling",
            truth_or(self.config.natural.as_str(), false),
        );
        let names = join(self.facts.mice.as_slice(), ", ");
        rows.info("Devices", names.as_str());
        rows
    }

    fn keyboard_rows(&self) -> (rows: Rows)
        ensures
            rows@ == keyboard_model(self.facts, self.config),
    {
        let mut rows = Rows::new();
        rows.info("Layout", self.facts.keyboard_layout.as_str());
        rows.toggle("repeat_keys", "Key Repeat", truth_or(self.config.repeat.as_str(), true));
        let names = join(self.facts.keyboards.as_slice(), ", ");
        rows.info("Devices", names.as_str());
        rows
    }

    /// The rows of a pane.
    pub fn pane_rows(&self, pane: Pane, profile: &str, toggles: &ShellToggles) -> (rows: Vec<Setting>)
        ensures
            rows_of(rows@) == pane_model(*self, pane, profile@, *toggles),
    {
        let rows = match pane {
            Pane::Wifi => self.wifi_rows(),
            Pane::Bluetooth => self.bluetooth_rows(),
            Pane::Appearance => self.appearance_rows(toggles),
            Pane::Notifications => self.notifications_rows(),
            Pane::Displays => self.displays_rows(toggles),
            Pane::Sound => self.sound_rows(toggles),
            Pane::Performance => self.performance_rows(),
            Pane::GameMode => self.game_mode_rows(),
            Pane::System => self.system_rows(profile),
            Pane::Widgets => self.widgets_rows(),
            Pane::Wallpaper => self.wallpaper_rows(),
            Pane::Users => self.users_rows(profile),
            Pane::Mouse => self.mouse_rows(),
            Pane::Keyboard => self.keyboard_rows(),
        };
        rows.list
    }
}

// ---- changes ---------------------------------------------------------------------------

/// A new value. Levels are binary32 bit patterns.
#[derive(Debug, Clone, Copy, PartialEq, Eq, Structural)]
pub enum SettingValue {
    Bool(bool),
    Choice(usize),
    Float(u32),
}

/// A helper program to run.
#[derive(Debug, Clone, Copy, PartialEq, Eq, Structural)]
pub enum Helper {
    WifiOn,
    WifiOff,
    BluetoothOn,
    BluetoothOff,
    ToggleMute,
}

impl Helper {
    /// The program and its arguments.
    pub open spec fn words(self) -> Seq<Seq<char>> {
        let none = Seq::<Seq<char>>::empty();
        match self {
            Helper::WifiOn => none.push("nmcli"@).push("radio"@).push("wifi"@).push("on"@),
            Helper::WifiOff => none.push("nmcli"@).push("radio"@).push("wifi"@).push("off"@),
            Helper::BluetoothOn => none.push("bluetoothctl"@).push("power"@).push("on"@),
            Helper::BluetoothOff => none.push("bluetoothctl"@).push("power"@).push("off"@),
            Helper::ToggleMute => none.push("pactl"@).push("set-sink-mute"@).push(
                "@DEFAULT_SINK@"@,
            ).push("toggle"@),
        }
    }

    pub fn command(self) -> (line: Vec<String>)
        ensures
            views(line@) == self.words(),
    {
        let mut line = no_texts();
        match self {
            Helper::WifiOn => {
                add_text(&mut line, "nmcli");
                add_text(&mut line, "radio");
                add_text(&mut line, "wifi");
                add_text(&mut line, "on");
            },
            Helper::WifiOff => {
                add_text(&mut line, "nmcli");
                add_text(&mut line, "radio");
                add_text(&mut line, "wifi");
                add_text(&mut line, "off");
            },
            Helper::BluetoothOn => {
                add_text(&mut line, "bluetoothctl");
                add_text(&mut line, "power");
                add_text(&mut line, "on");
            },
            Helper::BluetoothOff => {
                add_text(&mut line, "bluetoothctl");
                add_text(&mut line, "power");
                add_text(&mut line, "off");
            },
            Helper::ToggleMute => {
                add_text(&mut line, "pactl");
                add_text(&mut line, "set-sink-mute");
                add_text(&mut line, "@DEFAULT_SINK@");
                add_text(&mut line, "toggle");
            },
        }
        line
    }
}

/// What a change does outside of the settings.
#[derive(Debug, Clone, PartialEq, Eq)]
pub enum SettingEffect {
    Nothing,
    Run(Helper),
    /// A preference is stored.
    Store { key: &'static str, value: String },
    /// A level is stored as a decimal number.
    StoreLevel { key: &'static str, level: u32 },
    Brightness(u32),
    Volume(u32),
}

#[verifier::ext_equal]
pub enum Outcome {
    Nothing,
    Run(Helper),
    Store { key: Seq<char>, value: Seq<char> },
    StoreLevel { key: Seq<char>, level: u32 },
    Brightness(u32),
    Volume(u32),
}

impl View for SettingEffect {
    type V = Outcome;

    open spec fn view(&self) -> Outcome {
        match *self {
            SettingEffect::Nothing => Outcome::Nothing,
            SettingEffect::Run(helper) => Outcome::Run(helper),
            SettingEffect::Store { key, value } => Outcome::Store { key: key@, value: value@ },
            SettingEffect::StoreLevel { key, level } => Outcome::StoreLevel { key: key@, level },
            SettingEffect::Brightness(level) => Outcome::Brightness(level),
            SettingEffect::Volume(level) => Outcome::Volume(level),
        }
    }
}

/// How a switch is stored.
pub open spec fn truth_text(on: bool) -> Seq<char> {
    if on {
        "true"@
    } else {
        "false"@
    }
}

/// The file that a switch of a pane is stored in.
pub open spec fn switch_file(pane: Pane, key: Seq<char>) -> Option<Seq<char>> {
    match pane {
        Pane::Appearance => if key == "dark_mode"@ {
            Some("dark_mode"@)
        } else if key == "focus"@ {
            Some("focus"@)
        } else if key == "battery_saver"@ {
            Some("battery_saver"@)
        } else {
            None
        },
        Pane::Notifications => if key == "notifications.enabled"@ {
            Some("notifications.enabled"@)
        } else if key == "notifications.dnd"@ {
            Some("notifications.dnd"@)
        } else if key == "notifications.sounds"@ {
            Some("notifications.sounds"@)
        } else {
            None
        },
        Pane::Performance => if key == "reduce_transparency"@ {
            Some("reduce_transparency"@)
        } else {
            None
        },
        Pane::Mouse => if key == "natural_scroll"@ {
            Some("natural"@)
        } else {
            None
        },
        Pane::Keyboard => if key == "repeat_keys"@ {
            Some("repeat"@)
        } else {
            None
        },
        _ => None,
    }
}

/// The file that a choice of a pane is stored in, as its number.
pub open spec fn choice_file(pane: Pane, key: Seq<char>) -> Option<Seq<char>> {
    match pane {
        Pane::Appearance => if key == "accent"@ {
            Some("appearance"@)
        } else {
            None
        },
        Pane::Notifications => if key == "notifications.position"@ {
            Some("notifications.position"@)
        } else {
            None
        },
        Pane::Performance => if key == "graphics.backend"@ {
            Some("graphics.backend"@)
        } else {
            None
        },
        Pane::Widgets => if key == "layout"@ {
            Some("widgets"@)
        } else {
            None
        },
        Pane::Wallpaper => if key == "source"@ {
            Some("wallpaper"@)
        } else {
            None
        },
        Pane::Users => if key == "mark"@ {
            Some("avatar"@)
        } else {
            None
        },
        _ => None,
    }
}

/// What an action of a pane does, and the value that it gives; actions take
/// any value.
pub open spec fn action_of(pane: Pane, key: Seq<char>) -> Option<(Outcome, bool)> {
    match pane {
        Pane::Wifi => if key == "turn_on"@ {
            Some((Outcome::Run(Helper::WifiOn), true))
        } else if key == "turn_off"@ {
            Some((Outcome::Run(Helper::WifiOff), false))
        } else {
            None
        },
        Pane::Bluetooth => if key == "turn_on"@ {
            Some((Outcome::Run(Helper::BluetoothOn), true))
        } else if key == "turn_off"@ {
            Some((Outcome::Run(Helper::BluetoothOff), false))
        } else {
            None
        },
        Pane::Notifications => if key == "notifications.clear"@ {
            Some((Outcome::Nothing, true))
        } else {
            None
        },
        Pane::Sound => if key == "mute"@ {
            Some((Outcome::Run(Helper::ToggleMute), true))
        } else {
            None
        },
        Pane::Performance => if key == "swap.recommend"@ {
            Some((Outcome::Nothing, true))
        } else {
            None
        },
        Pane::GameMode => if key == "game_mode.preview"@ || key == "game_mode.restore"@ {
            Some((Outcome::Nothing, true))
        } else {
            None
        },
        Pane::Widgets => if key == "reset_board"@ {
            Some((Outcome::Nothing, true))
        } else {
            None
        },
        _ => None,
    }
}

/// What a level of a pane does.
pub open spec fn level_of(pane: Pane, key: Seq<char>, level: u32) -> Option<Outcome> {
    match pane {
        Pane::Displays => if key == "brightness"@ {
            Some(Outcome::Brightness(level))
        } else {
            None
        },
        Pane::Sound => if key == "volume"@ {
            Some(Outcome::Volume(level))
        } else {
            None
        },
        Pane::Mouse => if key == "speed"@ {
            Some(Outcome::StoreLevel { key: "mouse"@, level })
        } else {
            None
        },
        _ => None,
    }
}

/// Whether a change chooses the game mode.
pub open spec fn chooses_game_mode(pane: Pane, key: Seq<char>, value: SettingValue) -> bool {
    pane == Pane::GameMode && key == "game_mode.mode"@ && value is Choice
}

/// The game mode after a change: only its own choice changes it.
pub open spec fn chosen_game_mode(
    before: GameModeSnapshot,
    pane: Pane,
    key: Seq<char>,
    value: SettingValue,
) -> GameModeSnapshot {
    if chooses_game_mode(pane, key, value) {
        GameModeSnapshot { choice: GameModeChoice::of_number(value->Choice_0), ..before }
    } else {
        before
    }
}

/// What a change does, and the value that then holds; none where the pane has
/// no such row.
pub open spec fn outcome(pane: Pane, key: Seq<char>, value: SettingValue) -> (
    Outcome,
    Option<SettingValue>,
) {
    match action_of(pane, key) {
        Some((effect, on)) => (effect, Some(SettingValue::Bool(on))),
        None => match value {
            SettingValue::Bool(on) => match switch_file(pane, key) {
                Some(file) => (Outcome::Store { key: file, value: truth_text(on) }, Some(value)),
                None => (Outcome::Nothing, None),
            },
            SettingValue::Choice(index) => if chooses_game_mode(pane, key, value) {
                let choice = GameModeChoice::of_number(index);
                (
                    Outcome::Store { key: "game_mode.mode"@, value: choice.word() },
                    Some(SettingValue::Choice(choice.number())),
                )
            } else {
                match choice_file(pane, key) {
                    Some(file) => (
                        Outcome::Store { key: file, value: decimal(index as nat) },
                        Some(value),
                    ),
                    None => (Outcome::Nothing, None),
                }
            },
            SettingValue::Float(level) => match level_of(pane, key, level) {
                Some(effect) => (effect, Some(value)),
                None => (Outcome::Nothing, None),
            },
        },
    }
}

fn find_switch(pane: Pane, key: &str) -> (file: Option<&'static str>)
    ensures
        option_str_view(file) == switch_file(pane, key@),
{
    match pane {
        Pane::Appearance => if same(key, "dark_mode") {
            Some("dark_mode")
        } else if same(key, "focus") {
            Some("focus")
        } else if same(key, "battery_saver") {
            Some("battery_saver")
        } else {
            None
        },
        Pane::Notifications => if same(key, "notifications.enabled") {
            Some("notifications.enabled")
        } else if same(key, "notifications.dnd") {
            Some("notifications.dnd")
        } else if same(key, "notifications.sounds") {
            Some("notifications.sounds")
        } else {
            None
        },
        Pane::Performance => if same(key, "reduce_transparency") {
            Some("reduce_transparency")
        } else {
            None
        },
        Pane::Mouse => if same(key, "natural_scroll") {
            Some("natural")
        } else {
            None
        },
        Pane::Keyboard => if same(key, "repeat_keys") {
            Some("repeat")
        } else {
            None
        },
        _ => None,
    }
}

fn find_choice(pane: Pane, key: &str) -> (file: Option<&'static str>)
    ensures
        option_str_view(file) == choice_file(pane, key@),
{
    match pane {
        Pane::Appearance => if same(key, "accent") {
            Some("appearance")
        } else {
            None
        },
        Pane::Notifications => if same(key, "notifications.position") {
            Some("notifications.position")
        } else {
            None
        },
        Pane::Performance => if same(key, "graphics.backend") {
            Some("graphics.backend")
        } else {
            None
        },
        Pane::Widgets => if same(key, "layout") {
            Some("widgets")
        } else {
            None
        },
        Pane::Wallpaper => if same(key, "source") {
            Some("wallpaper")
        } else {
            None
        },
        Pane::Users => if same(key, "mark") {
            Some("avatar")
        } else {
            None
        },
        _ => None,
    }
}

fn find_action(pane: Pane, key: &str) -> (found: Option<(SettingEffect, bool)>)
    ensures
        match found {
            Some((effect, on)) => action_of(pane, key@) == Some((effect@, on)),
            None => action_of(pane, key@) is None,
        },
{
    match pane {
        Pane::Wifi => if same(key, "turn_on") {
            Some((SettingEffect::Run(Helper::WifiOn), true))
        } else if same(key, "turn_off") {
            Some((SettingEffect::Run(Helper::WifiOff), false))
        } else {
            None
        },
        Pane::Bluetooth => if same(key, "turn_on") {
            Some((SettingEffect::Run(Helper::BluetoothOn), true))
        } else if same(key, "turn_off") {
            Some((SettingEffect::Run(Helper::BluetoothOff), false))
        } else {
            None
        },
        Pane::Notifications => if same(key, "notifications.clear") {
            Some((SettingEffect::Nothing, true))
        } else {
            None
        },
        Pane::Sound => if same(key, "mute") {
            Some((SettingEffect::Run(Helper::ToggleMute), true))
        } else {
            None
        },
        Pane::Performance => if same(key, "swap.recommend") {
            Some((SettingEffect::Nothing, true))
        } else {
            None
        },
        Pane::GameMode => if same(key, "game_mode.preview") || same(key, "game_mode.restore") {
            Some((SettingEffect::Nothing, true))
        } else {
            None
        },
        Pane::Widgets => if same(key, "reset_board") {
            Some((SettingEffect::Nothing, true))
        } else {
            None
        },
        _ => None,
    }
}

fn find_level(pane: Pane, key: &str, level: u32) -> (found: Option<SettingEffect>)
    ensures
        match found {
            Some(effect) => level_of(pane, key@, level) == Some(effect@),
            None => level_of(pane, key@, level) is None,
        },
{
    match pane {
        Pane::Displays => if same(key, "brightness") {
            Some(SettingEffect::Brightness(level))
        } else {
            None
        },
        Pane::Sound => if same(key, "volume") {
            Some(SettingEffect::Volume(level))
        } else {
            None
        },
        Pane::Mouse => if same(key, "speed") {
            Some(SettingEffect::StoreLevel { key: "mouse", level })
        } else {
            None
        },
        _ => None,
    }
}

impl SettingsBackend {
    /// Takes one change: tells what is to be done for it, and the value that
    /// then holds. Only the choice of the game mode changes the settings
    /// themselves.
    pub fn apply(&mut self, pane: Pane, key: &str, value: SettingValue) -> (result: (
        SettingEffect,
        Option<SettingValue>,
    ))
        ensures
            (result.0@, result.1) == outcome(pane, key@, value),
            final(self).facts == old(self).facts,
            final(self).config == old(self).config,
            final(self).game_mode == chosen_game_mode(old(self).game_mode, pane, key@, value),
    {
        proof {
            reveal_strlit("game_mode.mode");
            reveal_strlit("game_mode.preview");
            reveal_strlit("game_mode.restore");
            assert("game_mode.mode"@.len() == 14);
            assert("game_mode.preview"@.len() == 17);
            assert("game_mode.restore"@.len() == 17);
        }
        match find_action(pane, key) {
            Some((effect, on)) => return (effect, Some(SettingValue::Bool(on))),
            None => {},
        }
        match value {
            SettingValue::Bool(on) => match find_switch(pane, key) {
                Some(file) => {
                    let text = if on {
                        "true"
                    } else {
                        "false"
                    };
                    (SettingEffect::Store { key: file, value: text.to_owned() }, Some(value))
                },
                None => (SettingEffect::Nothing, None),
            },
            SettingValue::Choice(index) => {
                if pane == Pane::GameMode && same(key, "game_mode.mode") {
                    let choice = GameModeChoice::from_index(index);
                    self.game_mode.choice = choice;
                    return (
                        SettingEffect::Store {
                            key: "game_mode.mode",
                            value: choice.config_value().to_owned(),
                        },
                        Some(SettingValue::Choice(choice.index())),
                    );
                }
                match find_choice(pane, key) {
                    Some(file) => (
                        SettingEffect::Store { key: file, value: decimal_text(index as u64) },
                        Some(value),
                    ),
                    None => (SettingEffect::Nothing, None),
                }
            },
            SettingValue::Float(level) => match find_level(pane, key, level) {
                Some(effect) => (effect, Some(value)),
                None => (SettingEffect::Nothing, None),
            },
        }
    }
}

// ---- laws ------------------------------------------------------------------------------

proof fn nothing_to_trim(s: Seq<char>)
    requires
        s.len() > 0,
        !white(s[0]),
        !white(s.last()),
    ensures
        trimmed(s) == s,
{
}

/// What is stored reads back as it was: switches, truth values, choices and
/// the game mode.
pub proof fn stored_values_read_back(on: bool, choice: usize, mode: GameModeChoice, default: bool, other: usize)
    ensures
        stored_switch(truth_text(on), default) == on,
        stored_truth(truth_text(on), default) == on,
        stored_number(decimal(choice as nat), other) == choice,
        stored_number(trimmed(decimal(choice as nat)), other) == choice,
        stored_game_mode(mode.word()) == mode,
{
    reveal_strlit("true");
    reveal_strlit("false");
    reveal_strlit("on");
    reveal_strlit("off");
    reveal_strlit("auto");
    reveal_strlit("yes");
    reveal_strlit("no");
    reveal_strlit("0");
    reveal_strlit("1");
    reveal_strlit("2");
    nothing_to_trim(truth_text(on));
    nothing_to_trim(mode.word());
    assert("true"@.len() == 4);
    assert("auto"@.len() == 4);
    assert("true"@[0] == 't');
    assert("auto"@[0] == 'a');
    assert("false"@.len() == 5);
    assert("off"@.len() == 3);
    assert("off"@[0] == 'o');
    assert("yes"@.len() == 3);
    assert("yes"@[0] == 'y');
    assert("on"@.len() == 2);
    assert("on"@[0] == 'o');
    assert("no"@.len() == 2);
    assert("no"@[0] == 'n');
    assert("0"@.len() == 1);
    assert("1"@.len() == 1);
    assert("2"@.len() == 1);
    parsing_undoes_decimal(choice as nat, usize::MAX as nat);
    let digits = decimal(choice as nat);
    assert(is_digit(digits[0]));
    assert(is_digit(digits[digits.len() - 1]));
    nothing_to_trim(digits);
}

/// Only the four radio commands and the mute switch run a program, and each
/// only from its own pane: no value of a setting is ever part of a command.
pub proof fn values_never_reach_a_command(pane: Pane, key: Seq<char>, a: SettingValue, b: SettingValue)
    ensures
        outcome(pane, key, a).0 is Run ==> outcome(pane, key, a) == outcome(pane, key, b),
{
}

/// A change that no row of the pane stands for does nothing.
pub proof fn unknown_changes_do_nothing(pane: Pane, key: Seq<char>, value: SettingValue)
    requires
        outcome(pane, key, value).1 is None,
    ensures
        outcome(pane, key, value).0 == Outcome::Nothing,
{
}

/// What the switches of the panes store: each its own preference, as `true` or
/// `false`, and the value is told back.
pub proof fn switches_store_their_preference(on: bool)
    ensures
        ({
            let value = SettingValue::Bool(on);
            let text = if on {
                "true"@
            } else {
                "false"@
            };
            let stored = |key: Seq<char>| (Outcome::Store { key, value: text }, Some(value));
            &&& outcome(Pane::Appearance, "dark_mode"@, value) == stored("dark_mode"@)
            &&& outcome(Pane::Appearance, "focus"@, value) == stored("focus"@)
            &&& outcome(Pane::Appearance, "battery_saver"@, value) == stored("battery_saver"@)
            &&& outcome(Pane::Notifications, "notifications.enabled"@, value) == stored(
                "notifications.enabled"@,
            )
            &&& outcome(Pane::Notifications, "notifications.dnd"@, value) == stored(
                "notifications.dnd"@,
            )
            &&& outcome(Pane::Notifications, "notifications.sounds"@, value) == stored(
                "notifications.sounds"@,
            )
            &&& outcome(Pane::Performance, "reduce_transparency"@, value) == stored(
                "reduce_transparency"@,
            )
            &&& outcome(Pane::Mouse, "natural_scroll"@, value) == stored("natural"@)
            &&& outcome(Pane::Keyboard, "repeat_keys"@, value) == stored("repeat"@)
        }),
{
    reveal_strlit("dark_mode");
    reveal_strlit("focus");
    reveal_strlit("battery_saver");
    reveal_strlit("notifications.enabled");
    reveal_strlit("notifications.dnd");
    reveal_strlit("notifications.sounds");
    reveal_strlit("notifications.clear");
    reveal_strlit("reduce_transparency");
    reveal_strlit("swap.recommend");
    assert("focus"@.len() != "dark_mode"@.len());
    assert("battery_saver"@.len() != "dark_mode"@.len() && "battery_saver"@.len()
        != "focus"@.len());
    assert("notifications.dnd"@.len() != "notifications.enabled"@.len());
    assert("notifications.sounds"@[14] != "notifications.enabled"@[14]);
    assert("notifications.sounds"@.len() != "notifications.dnd"@.len());
    assert("notifications.enabled"@[14] != "notifications.clear"@[14]);
    assert("notifications.sounds"@[14] != "notifications.clear"@[14]);
    assert("notifications.dnd"@[14] != "notifications.clear"@[14]);
    assert("reduce_transparency"@.len() != "swap.recommend"@.len());
}

/// What the choices of the panes store: each its own preference, as the number
/// that was chosen, and the game mode as its word.
pub proof fn choices_store_their_number(index: usize)
    ensures
        ({
            let value = SettingValue::Choice(index);
            let stored = |key: Seq<char>|
                (Outcome::Store { key, value: decimal(index as nat) }, Some(value));
            &&& outcome(Pane::Appearance, "accent"@, value) == stored("appearance"@)
            &&& outcome(Pane::Notifications, "notifications.position"@, value) == stored(
                "notifications.position"@,
            )
            &&& outcome(Pane::Performance, "graphics.backend"@, value) == stored(
                "graphics.backend"@,
            )
            &&& outcome(Pane::Widgets, "layout"@, value) == stored("widgets"@)
            &&& outcome(Pane::Wallpaper, "source"@, value) == stored("wallpaper"@)
            &&& outcome(Pane::Users, "mark"@, value) == stored("avatar"@)
            &&& outcome(Pane::GameMode, "game_mode.mode"@, value).0 == (Outcome::Store {
                key: "game_mode.mode"@,
                value: if index == 1 {
                    "on"@
                } else if index == 2 {
                    "off"@
                } else {
                    "auto"@
                },
            })
        }),
{
    reveal_strlit("notifications.position");
    reveal_strlit("notifications.clear");
    reveal_strlit("graphics.backend");
    reveal_strlit("swap.recommend");
    reveal_strlit("layout");
    reveal_strlit("reset_board");
    reveal_strlit("game_mode.mode");
    reveal_strlit("game_mode.preview");
    reveal_strlit("game_mode.restore");
    assert("notifications.position"@.len() != "notifications.clear"@.len());
    assert("graphics.backend"@.len() != "swap.recommend"@.len());
    assert("layout"@.len() != "reset_board"@.len());
    assert("game_mode.mode"@.len() != "game_mode.preview"@.len());
    assert("game_mode.mode"@.len() != "game_mode.restore"@.len());
}

/// What sliders and buttons do: the brightness, the volume and the speed of the
/// mouse are set to the level, and the radios and the mute are switched by their
/// own commands, whatever value comes along.
pub proof fn sliders_and_buttons_do_this(level: u32, value: SettingValue)
    ensures
        outcome(Pane::Displays, "brightness"@, SettingValue::Float(level)) == (
            Outcome::Brightness(level),
            Some(SettingValue::Float(level)),
        ),
        outcome(Pane::Sound, "volume"@, SettingValue::Float(level)) == (
            Outcome::Volume(level),
            Some(SettingValue::Float(level)),
        ),
        outcome(Pane::Mouse, "speed"@, SettingValue::Float(level)) == (
            Outcome::StoreLevel { key: "mouse"@, level },
            Some(SettingValue::Float(level)),
        ),
        outcome(Pane::Wifi, "turn_on"@, value) == (
            Outcome::Run(Helper::WifiOn),
            Some(SettingValue::Bool(true)),
        ),
        outcome(Pane::Wifi, "turn_off"@, value) == (
            Outcome::Run(Helper::WifiOff),
            Some(SettingValue::Bool(false)),
        ),
        outcome(Pane::Bluetooth, "turn_on"@, value) == (
            Outcome::Run(Helper::BluetoothOn),
            Some(SettingValue::Bool(true)),
        ),
        outcome(Pane::Bluetooth, "turn_off"@, value) == (
            Outcome::Run(Helper::BluetoothOff),
            Some(SettingValue::Bool(false)),
        ),
        outcome(Pane::Sound, "mute"@, value) == (
            Outcome::Run(Helper::ToggleMute),
            Some(SettingValue::Bool(true)),
        ),
        Helper::WifiOn.words() == seq!["nmcli"@, "radio"@, "wifi"@, "on"@],
        Helper::WifiOff.words() == seq!["nmcli"@, "radio"@, "wifi"@, "off"@],
        Helper::BluetoothOn.words() == seq!["bluetoothctl"@, "power"@, "on"@],
        Helper::BluetoothOff.words() == seq!["bluetoothctl"@, "power"@, "off"@],
        Helper::ToggleMute.words() == seq![
            "pactl"@,
            "set-sink-mute"@,
            "@DEFAULT_SINK@"@,
            "toggle"@,
        ],
{
    reveal_strlit("volume");
    reveal_strlit("mute");
    reveal_strlit("turn_on");
    reveal_strlit("turn_off");
    assert("volume"@.len() != "mute"@.len());
    assert("turn_on"@.len() != "turn_off"@.len());
    assert(Helper::WifiOn.words() =~= seq!["nmcli"@, "radio"@, "wifi"@, "on"@]);
    assert(Helper::WifiOff.words() =~= seq!["nmcli"@, "radio"@, "wifi"@, "off"@]);
    assert(Helper::BluetoothOn.words() =~= seq!["bluetoothctl"@, "power"@, "on"@]);
    assert(Helper::BluetoothOff.words() =~= seq!["bluetoothctl"@, "power"@, "off"@]);
    assert(Helper::ToggleMute.words() =~= seq![
        "pactl"@,
        "set-sink-mute"@,
        "@DEFAULT_SINK@"@,
        "toggle"@,
    ]);
}

/// What the rows with a switch or a slider show: each its own state.
pub proof fn rows_show_their_own_state(
    backend: SettingsBackend,
    profile: Seq<char>,
    toggles: ShellToggles,
)
    ensures
        ({
            let rows = |pane: Pane| pane_model(backend, pane, profile, toggles);
            let config = backend.config;
            let on = |row: Row| row->Toggle_value;
            &&& rows(Pane::Appearance)[0] is Toggle && on(rows(Pane::Appearance)[0])
                == toggles.dark_mode
            &&& rows(Pane::Appearance)[1] is Toggle && on(rows(Pane::Appearance)[1])
                == toggles.focus
            &&& rows(Pane::Appearance)[2] is Toggle && on(rows(Pane::Appearance)[2])
                == toggles.battery_saver
            &&& rows(Pane::Notifications)[0] is Toggle && on(rows(Pane::Notifications)[0])
                == stored_switch(config.notifications_enabled@, true)
            &&& rows(Pane::Notifications)[1] is Toggle && on(rows(Pane::Notifications)[1])
                == stored_switch(config.notifications_dnd@, false)
            &&& rows(Pane::Notifications)[2] is Toggle && on(rows(Pane::Notifications)[2])
                == stored_switch(config.notifications_sounds@, true)
            &&& rows(Pane::Performance)[2] is Toggle && on(rows(Pane::Performance)[2])
                == stored_switch(config.reduce_transparency@, false)
            &&& rows(Pane::Mouse)[1] is Toggle && on(rows(Pane::Mouse)[1]) == stored_truth(
                config.natural@,
                false,
            )
            &&& rows(Pane::Keyboard)[1] is Toggle && on(rows(Pane::Keyboard)[1]) == stored_truth(
                config.repeat@,
                true,
            )
            &&& rows(Pane::Displays)[1] is Slider && rows(Pane::Displays)[1]->Slider_value
                == toggles.brightness
            &&& rows(Pane::Sound)[1] is Slider && rows(Pane::Sound)[1]->Slider_value
                == toggles.volume
            &&& rows(Pane::Mouse)[0] is Slider && rows(Pane::Mouse)[0]->Slider_value
                == config.mouse_speed
        }),
{
}

/// What the rows with a choice show: each its own stored number, and the game
/// mode its own.
pub proof fn choices_show_their_own_number(
    backend: SettingsBackend,
    profile: Seq<char>,
    toggles: ShellToggles,
)
    ensures
        ({
            let rows = |pane: Pane| pane_model(backend, pane, profile, toggles);
            let config = backend.config;
            let chosen = |row: Row| row->selected;
            &&& rows(Pane::Appearance)[3] is Select && chosen(rows(Pane::Appearance)[3])
                == stored_number(config.appearance@, 0)
            &&& rows(Pane::Notifications)[3] is Select && chosen(rows(Pane::Notifications)[3])
                == stored_number(trimmed(config.notifications_position@), 0)
            &&& rows(Pane::Performance)[1] is Select && chosen(rows(Pane::Performance)[1])
                == stored_number(trimmed(config.graphics_backend@), 0)
            &&& rows(Pane::Widgets)[0] is Select && chosen(rows(Pane::Widgets)[0]) == stored_number(
                config.widgets@,
                0,
            )
            &&& rows(Pane::Wallpaper)[0] is Select && chosen(rows(Pane::Wallpaper)[0])
                == stored_number(config.wallpaper@, 0)
            &&& rows(Pane::Users)[2] is Select && chosen(rows(Pane::Users)[2]) == stored_number(
                config.avatar@,
                0,
            )
            &&& rows(Pane::GameMode)[1] is Select && chosen(rows(Pane::GameMode)[1])
                == backend.game_mode.choice.number()
        }),
{
}

/// Which words turn a switch on, and which off: anything else is the default.
/// A game mode is on, off, or else decided by itself.
pub proof fn stored_words_mean_this(raw: Seq<char>, default: bool, mode: GameModeChoice)
    ensures
        ({
            let word = trimmed(raw);
            let yes = word == "1"@ || word == "true"@ || word == "on"@ || word == "yes"@;
            let no = word == "0"@ || word == "false"@ || word == "off"@ || word == "no"@;
            &&& yes ==> stored_switch(raw, default)
            &&& no && !yes ==> !stored_switch(raw, default)
            &&& !yes && !no ==> stored_switch(raw, default) == default
            &&& stored_game_mode(raw) == GameModeChoice::On <==> word == "on"@ || word == "1"@
                || word == "true"@
            &&& stored_game_mode(raw) == GameModeChoice::Off ==> word == "off"@ || word == "2"@
                || word == "false"@
        }),
        GameModeChoice::of_number(mode.number()) == mode,
        GameModeChoice::Auto.number() == 0 && GameModeChoice::On.number() == 1
            && GameModeChoice::Off.number() == 2,
{
}

/// How the detection looks: muted while the detector is not ready, positive where
/// the mode is or may become active, a warning where a game was only detected,
/// and neutral otherwise.
pub proof fn detections_have_their_tone(snapshot: GameModeSnapshot)
    ensures
        game_mode_tone(snapshot) == SettingTone::Muted <==> !snapshot.detector_ready,
        game_mode_tone(snapshot) == SettingTone::Positive <==> snapshot.detector_ready && (
        snapshot.automatic_eligible || snapshot.policy_active),
        game_mode_tone(snapshot) == SettingTone::Warning <==> snapshot.detector_ready
            && !snapshot.automatic_eligible && !snapshot.policy_active && snapshot.detected,
        snapshot.policy_active ==> policy_text(snapshot) == snapshot.policy_label@,
        !snapshot.policy_active ==> policy_text(snapshot) == "Preview: "@ + snapshot.policy_label@,
{
}

/// What the rows of information show: each its own fact, and a word for one that
/// is not known.
pub proof fn rows_show_their_own_fact(
    backend: SettingsBackend,
    profile: Seq<char>,
    toggles: ShellToggles,
)
    ensures
        ({
            let rows = |pane: Pane| pane_model(backend, pane, profile, toggles);
            let facts = backend.facts;
            &&& rows(Pane::Wifi)[0] == (Row::Info {
                label: "Network"@,
                value: match facts.network_name {
                    Some(name) => name@,
                    None => "Off"@,
                },
            })
            &&& rows(Pane::Wifi)[1] == (Row::Info {
                label: "Interface"@,
                value: match facts.wifi_interface {
                    Some(name) => name@,
                    None => "none"@,
                },
            })
            &&& rows(Pane::Displays)[0] == (Row::Info {
                label: "Resolution"@,
                value: match facts.display_resolution {
                    Some(mode) => mode@,
                    None => "unknown"@,
                },
            })
            &&& rows(Pane::Sound)[0] == (Row::Info {
                label: "Output"@,
                value: match facts.default_sink {
                    Some(sink) => sink@,
                    None => "unknown"@,
                },
            })
            &&& rows(Pane::System)[0] == (Row::Info { label: "User"@, value: profile })
            &&& rows(Pane::System)[1] == (Row::Info { label: "Host"@, value: facts.hostname@ })
            &&& rows(Pane::System)[2] == (Row::Info {
                label: "Distribution"@,
                value: facts.distribution@,
            })
            &&& rows(Pane::System)[3] == (Row::Info { label: "Kernel"@, value: facts.kernel@ })
            &&& rows(Pane::System)[4] == (Row::Info { label: "CPU"@, value: facts.cpu@ })
            &&& rows(Pane::System)[5] == (Row::Info { label: "Memory"@, value: facts.memory@ })
            &&& rows(Pane::Keyboard)[0] == (Row::Info {
                label: "Layout"@,
                value: facts.keyboard_layout@,
            })
            &&& rows(Pane::Users)[1] == (Row::Info { label: "Name"@, value: profile })
        }),
{
}

proof fn paired_devices_follow(before: Seq<Row>, devices: Seq<Seq<char>>, k: int)
    requires
        0 <= k < devices.len(),
    ensures
        paired_model(before, devices).len() == before.len() + devices.len(),
        paired_model(before, devices)[before.len() + k] == (Row::Info {
            label: devices[k],
            value: "Paired"@,
        }),
    decreases devices.len(),
{
    reveal_with_fuel(paired_model, 2);
    let rest = devices.drop_last();
    if rest.len() > 0 {
        paired_devices_follow(
            before,
            rest,
            if k < rest.len() {
                k
            } else {
                0
            },
        );
        if k < rest.len() {
            assert(rest[k] == devices[k]);
        }
    }
}

/// Bluetooth shows whether it is powered, and every paired device behind its
/// buttons.
pub proof fn every_paired_device_is_shown(facts: SystemFacts, k: int)
    requires
        0 <= k < facts.bluetooth_devices@.len(),
    ensures
        bluetooth_model(facts).len() == 3 + facts.bluetooth_devices@.len(),
        bluetooth_model(facts)[3 + k] == (Row::Info {
            label: facts.bluetooth_devices@[k]@,
            value: "Paired"@,
        }),
{
    let opening = Seq::<Row>::empty().push(
        Row::Info {
            label: "Powered"@,
            value: if facts.bluetooth_powered {
                "Yes"@
            } else {
                "No"@
            },
        },
    ).push(Row::Action { key: "turn_on"@, label: "Turn Bluetooth On"@ }).push(
        Row::Action { key: "turn_off"@, label: "Turn Bluetooth Off"@ },
    );
    paired_devices_follow(opening, views(facts.bluetooth_devices@), k);
}

/// A choice of the game mode is taken over, and nothing else of it; no other change
/// touches it.
pub proof fn only_its_own_choice_changes_the_game_mode(
    before: GameModeSnapshot,
    pane: Pane,
    key: Seq<char>,
    value: SettingValue,
    index: usize,
)
    ensures
        ({
            let after = chosen_game_mode(
                before,
                Pane::GameMode,
                "game_mode.mode"@,
                SettingValue::Choice(index),
            );
            &&& after.choice == GameModeChoice::On <==> index == 1
            &&& after.choice == GameModeChoice::Off <==> index == 2
            &&& after.options == before.options && after.detected == before.detected
                && after.policy_active == before.policy_active && after.detector_ready
                == before.detector_ready
        }),
        pane != Pane::GameMode || key != "game_mode.mode"@ || !(value is Choice)
            ==> chosen_game_mode(before, pane, key, value) == before,
{
}

} // verus!
