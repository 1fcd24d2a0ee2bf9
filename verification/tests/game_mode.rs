use rouch::game_mode::{
    cgroup_of, collect_snapshot, hardware_memory, parent_of, parse_mem_total_bytes, process_of,
    read_cgroup, read_environment_keys, read_executable, read_parent_pid, read_process,
    read_runtime_args, relevant_environment_key, runtime_argument_hint, InventoryLimits,
    ProcessFiles, ProcessInventory,
};
use rouch::pieces::truncate_string;

#[test]
fn runtime_argument_filter_ignores_arbitrary_game_like_names() {
    assert!(runtime_argument_hint("/usr/lib/proton").then_some(()).is_some());
    assert!(runtime_argument_hint("steam_app_1234").then_some(()).is_some());
    assert!(!runtime_argument_hint("my-game-launcher"));
}

#[test]
fn environment_filter_keeps_keys_but_not_values() {
    assert!(relevant_environment_key("STEAM_COMPAT_DATA_PATH"));
    assert!(relevant_environment_key("PROTON_LOG"));
    assert!(!relevant_environment_key("TOKEN"));
}

#[test]
fn truncate_preserves_utf8_boundaries() {
    assert_eq!(truncate_string("ábc", 1), "");
    assert_eq!(truncate_string("ábc", 2), "á");
}

#[test]
fn meminfo_parser_requires_memtotal_and_converts_kib() {
    assert_eq!(
        parse_mem_total_bytes("MemFree: 2 kB\nMemTotal: 4096 kB\n"),
        Some(4 * 1024 * 1024)
    );
    assert_eq!(parse_mem_total_bytes("MemFree: 2 kB\n"), None);
}

#[test]
fn markers_are_whole_parts_of_an_argument() {
    assert!(runtime_argument_hint("WINE-9.0"));
    assert!(runtime_argument_hint("run pressure-vessel-wrap"));
    assert!(runtime_argument_hint("a=sober"));
    assert!(!runtime_argument_hint("winery"));
    assert!(!runtime_argument_hint("protonmail"));
    assert!(!runtime_argument_hint(""));
}

#[test]
fn keys_are_kept_without_their_values() {
    let environ = b"PROTON_LOG=1\0TOKEN=secret\0 wineprefix =/home/me\0\xff=\0SOBER\0".to_vec();
    assert_eq!(read_environment_keys(&environ), ["PROTON_LOG", "wineprefix", "SOBER"]);
}

#[test]
fn only_telling_arguments_are_kept() {
    let cmdline = b"/usr/bin/app\0--password\0steam_app_7\0\xff\xfe\0".to_vec();
    assert_eq!(read_runtime_args(&cmdline), ["steam_app_7"]);
    let many: Vec<u8> = b"proton\0".iter().copied().cycle().take(7 * 40).collect();
    assert_eq!(read_runtime_args(&many).len(), 16);
    let mut long = b"wine-".to_vec();
    long.extend(vec![b'x'; 400]);
    assert_eq!(read_runtime_args(&long)[0].len(), 256);
}

#[test]
fn parents_are_found_behind_the_name() {
    assert_eq!(parent_of("42 (a) b) S 7 42 42"), Some(7));
    assert_eq!(parent_of("no brackets"), None);
    assert_eq!(read_parent_pid(&b"42 (a\xff) S 9 1".to_vec()), Some(9));
    assert_eq!(read_parent_pid(&b"42 (a) S x".to_vec()), None);
}

#[test]
fn executables_come_from_the_link_or_the_name() {
    let link = Some("/usr/bin/wine".to_owned());
    assert_eq!(read_executable(&link, &None).as_deref(), Some("/usr/bin/wine"));
    let comm = Some(b"wine\xff\n".to_vec());
    assert_eq!(read_executable(&None, &comm).as_deref(), Some("wine\u{fffd}"));
    assert_eq!(read_executable(&None, &None), None);
}

#[test]
fn the_first_group_path_counts() {
    let group = cgroup_of(5, "0::/user.slice/app.scope\n1:cpu::\ncpu,memory::/other\n").unwrap();
    assert_eq!(group.path, "/user.slice/app.scope");
    assert_eq!(group.pid, Some(5));
    assert_eq!(group.controllers, ["0", "cpu", "memory"]);
    assert!(cgroup_of(5, "nothing here").is_none());
    assert_eq!(read_cgroup(1, &b"0::/\xff\n".to_vec()).unwrap().path, "/\u{fffd}");
}

#[test]
fn the_foreground_is_not_read_twice() {
    assert_eq!(process_of("17", None), Some(17));
    assert_eq!(process_of("17", Some(17)), None);
    assert_eq!(process_of("self", None), None);
}

#[test]
fn inventories_stay_within_their_limits() {
    let limits = InventoryLimits {
        processes: 2,
        cgroups: 1,
    };
    let files = ProcessFiles {
        link: Some("/usr/bin/proton".to_owned()),
        comm: None,
        stat: Some(b"1 (p) S 4".to_vec()),
        cmdline: Some(b"proton\0run\0".to_vec()),
        environ: None,
        cgroup: Some(b"0::/a\n".to_vec()),
    };
    let process = read_process(9, &files).unwrap();
    assert_eq!(process.parent_pid, Some(4));
    assert_eq!(process.argv, ["proton"]);
    let mut inventory = ProcessInventory::new();
    for pid in 0..5 {
        if inventory.has_room(limits) {
            inventory.collect_one(limits, pid, &files);
        }
    }
    assert_eq!(inventory.processes.len(), 2);
    assert_eq!(inventory.cgroups.len(), 1);
    let snapshot = collect_snapshot(vec![1u8], vec![2u8], inventory, Some(9));
    assert_eq!(snapshot.foreground_pid, Some(9));
    assert!(!snapshot.manual_confirmation);
}

#[test]
fn unknown_memory_means_the_balanced_tier() {
    assert_eq!(hardware_memory(None), None);
    assert_eq!(hardware_memory(Some("MemTotal: 0 kB\n")), None);
    assert_eq!(hardware_memory(Some("MemTotal: 1 kB\n")), Some(1024));
}
