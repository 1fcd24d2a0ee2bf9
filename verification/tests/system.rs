use rouch::finder::{
    default_root, desktop_path, human_size, list_dir, open_path, sort_items, DirectoryEntry,
    FinderItem, FinderSort,
};
use rouch::pieces::{cut_on_text, split_on_text, strip_text, text_after_last};
use rouch::readings::{
    battery, caption, cpu_fields, first_entry, hostname, meminfo_field, needs_refresh, network,
    read_storage_percent, read_volume, WidgetKind,
};
use rouch::settings::{
    config_bool, config_choice, game_mode_choice, GameModeChoice, GameModeSnapshot, Helper, Pane,
    Setting, SettingEffect, SettingTone, SettingValue, SettingsBackend, ShellToggles, StoredConfig,
    SystemFacts,
};
use rouch::system_texts::{
    bluetooth_devices, bluetooth_powered, cpu_model, display_resolution, format_bytes,
    input_devices, keyboard_layout, pick_interface, recommended_swap_status, swap_recommendation,
    swap_status, told, total_memory, total_memory_bytes,
};
use rouch::text::{decimal_text, split_lines, split_words};

fn texts(list: &[&str]) -> Vec<String> {
    list.iter().map(|text| (*text).to_owned()).collect()
}

#[test]
fn sizes_read_like_a_person_would_write_them() {
    for (bytes, text) in [
        (0u64, "0 bytes"),
        (1023, "1023 bytes"),
        (1024, "1 KB"),
        (1229, "1.2 KB"),
        (1280, "1.2 KB"),
        (1792, "1.8 KB"),
        (1_048_575, "1024 KB"),
        (1_048_576, "1 MB"),
        (3_565_158, "3.4 MB"),
        (u64::MAX, "16777216 TB"),
    ] {
        assert_eq!(human_size(bytes), text);
        if bytes >= 1024 {
            let units = ["KB", "MB", "GB", "TB"];
            let mut value = bytes as f64 / 1024.0;
            let mut unit = 0;
            while value >= 1024.0 && unit < 3 {
                value /= 1024.0;
                unit += 1;
            }
            let rounded = format!("{value:.1}");
            let trimmed = rounded.trim_end_matches('0').trim_end_matches('.');
            assert_eq!(human_size(bytes), format!("{trimmed} {}", units[unit]));
        }
    }
}

fn item(name: &str, directory: bool, size_bytes: u64) -> FinderItem {
    FinderItem {
        name: name.to_owned(),
        directory,
        size_bytes,
    }
}

fn names(items: &[FinderItem]) -> Vec<&str> {
    items.iter().map(|item| item.name.as_str()).collect()
}

#[test]
fn items_are_sorted_by_name_or_size() {
    let mut items = vec![
        item("b", false, 5),
        item("A", false, 9),
        item("Éa", true, 1),
        item("éb", true, 0),
        item("a", false, 7),
    ];
    sort_items(&mut items, FinderSort::Name);
    // "A" and "a" are tied and stay as they were.
    assert_eq!(names(&items), ["A", "a", "b", "Éa", "éb"]);
    sort_items(&mut items, FinderSort::Size);
    assert_eq!(names(&items), ["Éa", "éb", "A", "a", "b"]);
    sort_items(&mut items, FinderSort::Date);
    assert_eq!(names(&items), ["A", "a", "b", "Éa", "éb"]);
}

#[test]
fn hidden_and_unreadable_entries_are_left_out() {
    let entry = |name: &str, metadata: Option<(bool, u64)>| DirectoryEntry {
        name: name.to_owned(),
        metadata,
    };
    let entries = vec![
        entry("z", Some((false, 1))),
        entry(".git", Some((true, 0))),
        entry("broken", None),
        entry("Documents", Some((true, 0))),
    ];
    assert_eq!(names(&list_dir(&entries, false)), ["Documents", "z"]);
    assert_eq!(names(&list_dir(&entries, true)), [".git", "Documents", "z"]);
    assert_eq!(open_path("/tmp", true).as_deref(), Some("/tmp"));
    assert_eq!(open_path("/tmp/a.txt", false), None);
    let home = Some("/home/ada".to_owned());
    assert_eq!(desktop_path("/home/ada"), "/home/ada/Desktop");
    assert_eq!(default_root(&home, true, true), "/home/ada/Desktop");
    assert_eq!(default_root(&home, false, true), "/tmp");
    assert_eq!(default_root(&None, true, false), "/");
}

#[test]
fn stored_words_become_switches() {
    assert!(config_bool(" on\n", false));
    assert!(!config_bool("0", true));
    assert!(config_bool("maybe", true));
    assert_eq!(config_choice(" 2 \n", 0), 2);
    assert_eq!(config_choice("x", 1), 1);
    assert_eq!(game_mode_choice("true\n"), GameModeChoice::On);
    assert_eq!(game_mode_choice("2"), GameModeChoice::Off);
    assert_eq!(game_mode_choice(""), GameModeChoice::Auto);
}

fn backend() -> SettingsBackend {
    let zero = || "0".to_owned();
    SettingsBackend::new(
        SystemFacts {
            network_name: None,
            wifi_interface: Some("wlan0".to_owned()),
            bluetooth_powered: true,
            bluetooth_devices: texts(&["AA Mouse"]),
            display_resolution: None,
            default_sink: None,
            swap_status: "Not active".to_owned(),
            recommended_swap: "2.0 GiB".to_owned(),
            hostname: "box".to_owned(),
            distribution: "Debian".to_owned(),
            kernel: "6.1".to_owned(),
            cpu: "cpu".to_owned(),
            memory: "8.0 GB".to_owned(),
            keyboard_layout: "us".to_owned(),
            mice: texts(&["A", "B"]),
            keyboards: vec![],
            avatar_marks: texts(&["Ocean"]),
        },
        StoredConfig {
            appearance: "3".to_owned(),
            notifications_enabled: "yes".to_owned(),
            notifications_dnd: zero(),
            notifications_sounds: zero(),
            notifications_position: zero(),
            graphics_backend: " 1\n".to_owned(),
            reduce_transparency: zero(),
            widgets: zero(),
            wallpaper: zero(),
            avatar: "x".to_owned(),
            natural: "true".to_owned(),
            repeat: zero(),
            mouse_speed: 0.5f32.to_bits(),
        },
        GameModeSnapshot {
            choice: GameModeChoice::On,
            options: texts(&["Auto", "On", "Off"]),
            detector_ready: true,
            automatic_eligible: false,
            policy_active: false,
            detected: true,
            policy_label: "quiet".to_owned(),
            detection_label: "game".to_owned(),
            confidence_label: "low".to_owned(),
            reasons_label: "none".to_owned(),
            cache_label: "empty".to_owned(),
        },
    )
}

fn toggles() -> ShellToggles {
    ShellToggles {
        dark_mode: true,
        focus: false,
        battery_saver: false,
        brightness: 0,
        volume: 1,
    }
}

#[test]
fn panes_show_what_the_system_tells() {
    let backend = backend();
    let rows = |pane: Pane| backend.pane_rows(pane, "Ada", &toggles());
    assert_eq!(
        rows(Pane::Wifi)[0],
        Setting::Info {
            label: "Network".to_owned(),
            value: "Off".to_owned()
        }
    );
    assert_eq!(rows(Pane::Bluetooth).len(), 4);
    assert!(matches!(rows(Pane::Appearance)[3], Setting::Select { selected: 3, .. }));
    assert!(matches!(rows(Pane::Notifications)[0], Setting::Toggle { value: true, .. }));
    assert!(matches!(rows(Pane::Notifications)[2], Setting::Toggle { value: false, .. }));
    assert!(matches!(rows(Pane::Performance)[1], Setting::Select { selected: 1, .. }));
    assert!(matches!(rows(Pane::Sound)[1], Setting::Slider { value: 1, .. }));
    assert!(matches!(rows(Pane::Users)[2], Setting::Select { selected: 0, .. }));
    assert!(matches!(rows(Pane::Mouse)[1], Setting::Toggle { value: true, .. }));
    assert!(matches!(rows(Pane::Keyboard)[1], Setting::Toggle { value: true, .. }));
    assert_eq!(
        rows(Pane::Mouse)[2],
        Setting::Info {
            label: "Devices".to_owned(),
            value: "A, B".to_owned()
        }
    );
    assert!(matches!(
        rows(Pane::GameMode)[2],
        Setting::Status {
            tone: SettingTone::Warning,
            ..
        }
    ));
    assert_eq!(
        rows(Pane::GameMode)[4],
        Setting::Info {
            label: "Policy / Politica".to_owned(),
            value: "Preview: quiet".to_owned()
        }
    );
    for pane in [Pane::Displays, Pane::System, Pane::Widgets, Pane::Wallpaper] {
        assert!(!rows(pane).is_empty());
    }
}

#[test]
fn changes_are_stored_or_run() {
    let mut backend = backend();
    let store = |key: &'static str, value: &str| SettingEffect::Store {
        key,
        value: value.to_owned(),
    };
    assert_eq!(
        backend.apply(Pane::Wifi, "turn_off", SettingValue::Bool(true)),
        (SettingEffect::Run(Helper::WifiOff), Some(SettingValue::Bool(false)))
    );
    assert_eq!(
        backend.apply(Pane::Mouse, "natural_scroll", SettingValue::Bool(false)),
        (store("natural", "false"), Some(SettingValue::Bool(false)))
    );
    assert_eq!(
        backend.apply(Pane::Users, "mark", SettingValue::Choice(12)),
        (store("avatar", "12"), Some(SettingValue::Choice(12)))
    );
    assert_eq!(
        backend.apply(Pane::GameMode, "game_mode.mode", SettingValue::Choice(9)),
        (store("game_mode.mode", "auto"), Some(SettingValue::Choice(0)))
    );
    assert_eq!(backend.game_mode_snapshot().choice, GameModeChoice::Auto);
    assert_eq!(
        backend.apply(Pane::Displays, "brightness", SettingValue::Float(7)),
        (SettingEffect::Brightness(7), Some(SettingValue::Float(7)))
    );
    assert_eq!(
        backend.apply(Pane::Mouse, "speed", SettingValue::Float(7)),
        (
            SettingEffect::StoreLevel {
                key: "mouse",
                level: 7
            },
            Some(SettingValue::Float(7))
        )
    );
    assert_eq!(
        backend.apply(Pane::Displays, "brightness", SettingValue::Bool(true)),
        (SettingEffect::Nothing, None)
    );
    assert_eq!(
        backend.apply(Pane::Widgets, "reset_board", SettingValue::Choice(0)).1,
        Some(SettingValue::Bool(true))
    );
    assert_eq!(
        Helper::ToggleMute.command(),
        ["pactl", "set-sink-mute", "@DEFAULT_SINK@", "toggle"]
    );
    let snapshot = backend.game_mode_snapshot().clone();
    backend.set_game_mode_snapshot(snapshot);
}

#[test]
fn memory_is_read_and_written() {
    let info = "MemFree: 1 kB\nMemTotal:       16309232 kB\n";
    assert_eq!(total_memory_bytes(info), Some(16_309_232 * 1024));
    assert_eq!(
        total_memory(info),
        Some(format!("{:.1} GB", 16_309_232f64 / (1024.0 * 1024.0)))
    );
    assert_eq!(total_memory("MemTotal: 1.5 kB"), None);
    assert_eq!(total_memory_bytes("MemTotal: 99999999999999999999 kB"), None);
    assert_eq!(total_memory_bytes("MemTotal: 18446744073709551615 kB"), None);
    assert_eq!(total_memory("nothing"), Some("0.0 GB".to_owned()));
    for bytes in [0u64, 5_000_000, 1_073_741_824, 1_342_177_280, 1_879_048_192, u64::MAX] {
        let expected = if bytes >= 1_073_741_824 {
            format!("{:.1} GiB", bytes as f64 / 1_073_741_824f64)
        } else {
            format!("{} MiB", bytes / 1_048_576)
        };
        assert_eq!(format_bytes(bytes), expected);
    }
}

#[test]
fn swap_is_told_without_touching_it() {
    assert_eq!(swap_status(None), "Unavailable");
    assert_eq!(swap_status(Some(0)), "Not active");
    assert_eq!(swap_status(Some(2)), "2 active");
    assert_eq!(recommended_swap_status(None), "Unavailable");
    assert_eq!(recommended_swap_status(Some(2_147_483_648)), "2.0 GiB");
    assert_eq!(
        swap_recommendation(Some(Some(2_147_483_648)), "/swapfile", 1),
        "Recommended 2.0 GiB at /swapfile. 1 active swap device(s); preview the plan before any privileged change."
    );
    assert!(swap_recommendation(None, "/swapfile", 0).contains("Could not read"));
    assert!(swap_recommendation(Some(None), "/swapfile", 0).contains("outside"));
}

#[test]
fn helper_output_is_read() {
    assert!(bluetooth_powered(Some("Controller\n\tPowered: yes\n")));
    assert!(!bluetooth_powered(None));
    assert_eq!(bluetooth_devices("Device AA Mouse\nother\nDevice BB\n"), ["AA Mouse", "BB"]);
    let cards = vec![Some(String::new()), Some("1920x1080\n1280x720\n".to_owned())];
    assert_eq!(display_resolution(&cards).as_deref(), Some("1920x1080"));
    assert_eq!(display_resolution(&vec![None, Some("1x1".to_owned())]), None);
    assert_eq!(cpu_model(Some("x\nmodel name\t: Fast CPU: 3\n")), "Fast CPU");
    assert_eq!(cpu_model(None), "unknown");
    assert_eq!(keyboard_layout(Some("rules: evdev\nlayout:     br\n")), "br");
    assert_eq!(keyboard_layout(Some("")), "us");
    assert_eq!(told(Some(" 6.1 \n")).as_deref(), Some("6.1"));
    let devices = "N: Name=\"USB Mouse\"\nH: Mouse0\n\nN: Name=\"Kbd\"\nH: kbd\n\nN: Name=\"\"\nH: Mouse1\n";
    assert_eq!(input_devices(devices, "Mouse"), ["USB Mouse"]);
    let interfaces = texts(&["lo", "eth0", "wlan0"]);
    assert_eq!(
        pick_interface(&interfaces, &vec![true, false, true]).as_deref(),
        Some("wlan0")
    );
}

#[test]
fn readings_come_from_their_words() {
    assert!(needs_refresh(None) && needs_refresh(Some(2000)) && !needs_refresh(Some(1999)));
    let text = |raw: &str| Some(raw.to_owned());
    assert_eq!(battery(&text("140\n"), &text("Charging\n")), (Some(100), true));
    assert_eq!(battery(&text("x"), &text("Full")), (None, false));
    assert_eq!(
        first_entry(&texts(&["AC", "BAT1", "BAT0"]), "BAT").as_deref(),
        Some("BAT0")
    );
    assert_eq!(first_entry(&texts(&["AC"]), "BAT"), None);
    let volume = "Volume: front-left: 45875 /  70% / -9.94 dB\n";
    assert_eq!(read_volume(volume).as_deref(), Some("70"));
    assert_eq!(read_volume("Mute: no"), None);
    let df = "Filesystem 1024-blocks Used Available Capacity Mounted on\n/dev/a 10 4 6 42% /\n";
    assert_eq!(read_storage_percent(df).as_deref(), Some("42"));
    assert_eq!(read_storage_percent("one line"), None);
    let wireless = "Inter-|\n face |\n wlan0: 0000\n";
    assert_eq!(network(wireless, &vec![], &vec![]), (text("wlan0"), true));
    assert_eq!(
        network("", &texts(&["lo", "eth0"]), &vec![true, true]),
        (text("eth0"), true)
    );
    assert_eq!(network("", &texts(&["lo"]), &vec![true]), (None, false));
    assert_eq!(cpu_fields("cpu  1 2 3\n").unwrap(), ["1", "2", "3"]);
    assert!(cpu_fields("intr 1\n").is_none());
    assert_eq!(meminfo_field("MemTotal: 9 kB\n", "MemTotal").as_deref(), Some("9"));
    assert_eq!(meminfo_field("MemTotalX: 9\n", "MemTotal"), None);
    assert_eq!(hostname(&text(" box\n")), "box");
    assert_eq!(hostname(&text("\n")), "Rouch");
    assert_eq!(caption(WidgetKind::Battery, None, false, &None), "No Battery");
    assert_eq!(caption(WidgetKind::Network, None, false, &None), "Offline");
}

#[test]
fn texts_are_cut_apart() {
    assert_eq!(
        cut_on_text("a::b::c", "::"),
        Some(("a".to_owned(), "b::c".to_owned()))
    );
    assert_eq!(cut_on_text("a:b", "::"), None);
    assert_eq!(split_on_text("a\n\n\nb", "\n\n"), ["a", "\nb"]);
    assert_eq!(text_after_last("a)b)c", ')').as_deref(), Some("c"));
    assert_eq!(strip_text("\"\"x\"y\"", '"'), "x\"y");
    assert_eq!(split_lines("a\r\nb\n"), ["a", "b"]);
    assert_eq!(split_words("  a\u{3000}b "), ["a", "b"]);
    assert_eq!(decimal_text(u64::MAX), "18446744073709551615");
}
