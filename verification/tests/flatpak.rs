use std::cell::RefCell;
use std::collections::VecDeque;

use rouch::app_store::{CatalogSource, CatalogState, FlatpakApp};
use rouch::flatpak_backend::{
    looks_offline, CommandOutput, FlatpakBackend, FlatpakCommandRunner, OperationKind,
    OperationStatus, RunnerError,
};
use rouch::flatpak_cache::{
    decode_cache_app, decode_field, default_cache_path, encode_cache_app, encode_field, CatalogCache,
};
use rouch::flatpak_rows::{
    parse_categories, parse_installed_apps, parse_remote_apps, validate_app_id, validate_remote,
};
use rouch::sizes::parse_size_bytes;

const REMOTE_OUTPUT: &str = "org.example.Editor\tEditor\tA small editor\t1.2\tstable\tx86_64\tflathub\torg.gnome.Platform\tGPL-3.0\thttps://example.invalid/editor\t\tUtility;Development;\t2 MiB\norg.example.Broken\t\t\n";
const INSTALLED_OUTPUT: &str = "org.example.Editor\tEditor\t1.0\tstable\tx86_64\tflathub\n";

struct FakeRunner {
    results: RefCell<VecDeque<Result<CommandOutput, RunnerError>>>,
    calls: RefCell<Vec<(String, Vec<String>)>>,
}

impl FakeRunner {
    fn with_results(results: Vec<Result<CommandOutput, RunnerError>>) -> Self {
        Self {
            results: RefCell::new(results.into()),
            calls: RefCell::new(Vec::new()),
        }
    }
}

impl FlatpakCommandRunner for FakeRunner {
    fn run(&mut self, program: &str, args: &[String]) -> Result<CommandOutput, RunnerError> {
        self.calls.borrow_mut().push((program.to_owned(), args.to_vec()));
        self.results
            .borrow_mut()
            .pop_front()
            .unwrap_or_else(|| Ok(CommandOutput::success(String::new())))
    }
}

fn missing(message: &str) -> RunnerError {
    RunnerError {
        not_found: true,
        message: message.to_owned(),
    }
}

fn success(stdout: &str) -> Result<CommandOutput, RunnerError> {
    Ok(CommandOutput::success(stdout.to_owned()))
}

fn failure(code: i32, stderr: &str) -> Result<CommandOutput, RunnerError> {
    Ok(CommandOutput::failure(Some(code), stderr.to_owned()))
}

#[test]
fn remote_and_installed_parsers_keep_optional_metadata() {
    let apps = parse_remote_apps(REMOTE_OUTPUT);
    assert_eq!(apps.len(), 1);
    let app = &apps[0];
    assert_eq!(app.app_id(), "org.example.Editor");
    assert_eq!(app.metadata.version.as_deref(), Some("1.2"));
    assert_eq!(app.metadata.categories, ["Utility", "Development"]);
    assert_eq!(app.metadata.size_bytes, Some(2 * 1024 * 1024));
    assert!(!app.installed);

    let installed = parse_installed_apps(INSTALLED_OUTPUT);
    assert_eq!(installed.len(), 1);
    assert!(installed[0].installed);
    assert_eq!(installed[0].metadata.version.as_deref(), Some("1.0"));
}

#[test]
fn live_refresh_merges_installed_state_and_detects_updates() {
    let runner = FakeRunner::with_results(vec![success(REMOTE_OUTPUT), success(INSTALLED_OUTPUT)]);
    let mut backend = FlatpakBackend::with_runner_and_cache_path(runner, None);
    let snapshot = backend.refresh(1_700_000_000);
    assert_eq!(snapshot.source, CatalogSource::Live);
    assert_eq!(snapshot.state, CatalogState::Ready);
    assert_eq!(snapshot.apps.len(), 1);
    assert!(snapshot.apps[0].installed);
    assert!(snapshot.apps[0].update_available);

    let calls = backend.runner().calls.borrow();
    assert_eq!(calls.len(), 2);
    assert_eq!(calls[0].0, "flatpak");
    assert_eq!(calls[0].1[0], "remote-ls");
    assert!(!calls[0]
        .1
        .iter()
        .any(|arg| arg.contains('|') || arg.contains(';')));
}

#[test]
fn missing_flatpak_uses_trusted_local_fallback_and_reports_offline() {
    let runner = FakeRunner::with_results(vec![Err(missing("flatpak not found"))]);
    let fallback = FlatpakApp::new("org.example.Local", "Local app", "Installed metadata");
    let mut backend =
        FlatpakBackend::with_runner_and_cache_path(runner, None).with_local_fallback(vec![fallback]);
    let snapshot = backend.refresh(1);
    assert_eq!(snapshot.state, CatalogState::Offline);
    assert_eq!(snapshot.source, CatalogSource::Local);
    assert_eq!(snapshot.apps[0].app_id(), "org.example.Local");
    assert!(snapshot.message.as_deref().unwrap().contains("not installed"));
}

#[test]
fn cache_round_trip_preserves_unicode_and_states() {
    let mut app = FlatpakApp::new("org.example.Editor", "Éditor", "Line\nsummary");
    app.metadata.description = "Description with tabs\tand accents".to_owned();
    app.metadata.categories = vec!["Utility".to_owned(), "Unknown;raw".to_owned()];
    app.metadata.version = Some("1.0".to_owned());
    app.installed = true;
    app.update_available = true;
    let mut cache = CatalogCache::from_entries(vec![app.clone()]);
    cache.replace(vec![app], 1_700_000_000);
    let body = cache.save(1_700_000_000);

    let loaded = CatalogCache::load(&body).unwrap();
    assert_eq!(loaded.entries(), cache.entries());
    assert!(loaded.saved_at().is_some());
    assert_eq!(loaded.saved_at(), Some(1_700_000_000));
}

#[test]
fn invalid_ids_are_rejected_before_process_execution() {
    assert!(validate_app_id("org.example.App").is_ok());
    assert!(validate_app_id("org.example.App;rm -rf /").is_err());
    assert!(validate_app_id("--help").is_err());
    assert!(validate_app_id("single-component").is_err());

    let runner = FakeRunner::with_results(vec![]);
    let mut backend = FlatpakBackend::with_runner_and_cache_path(runner, None);
    let report = backend.install("org.example.App;bad");
    assert_eq!(report.status, OperationStatus::Rejected);
    assert!(backend.runner().calls.borrow().is_empty());
}

#[test]
fn operations_use_user_scope_and_return_explicit_status() {
    let runner = FakeRunner::with_results(vec![
        success("installed"),
        failure(1, "permission denied"),
        Err(missing("missing")),
    ]);
    let mut backend = FlatpakBackend::with_runner_and_cache_path(runner, None);

    let install = backend.install("org.example.App");
    assert_eq!(install.status, OperationStatus::Succeeded);
    assert!(install.command.contains(&"--user".to_owned()));

    let update = backend.update("org.example.App");
    assert_eq!(update.status, OperationStatus::Failed);
    assert!(update.message.contains("permission denied"));

    let remove = backend.remove("org.example.App");
    assert_eq!(remove.status, OperationStatus::Unavailable);
    assert!(remove.is_unavailable());
}

#[test]
fn network_failures_are_offline_but_other_failures_remain_errors() {
    let network_runner = FakeRunner::with_results(vec![failure(7, "Could not resolve host")]);
    let mut network_backend = FlatpakBackend::with_runner_and_cache_path(network_runner, None);
    let network = network_backend.refresh(1);
    assert_eq!(network.state, CatalogState::Offline);

    let error_runner = FakeRunner::with_results(vec![failure(2, "invalid option")]);
    let mut error_backend = FlatpakBackend::with_runner_and_cache_path(error_runner, None);
    let error = error_backend.refresh(1);
    assert!(matches!(error.state, CatalogState::Error(_)));
}

#[test]
fn fields_survive_every_separator() {
    for text in ["", "plain", "a\tb\nc", "100%", "é漢😀", "%09", "\u{1f}"] {
        let encoded = encode_field(text);
        assert!(!encoded.contains('\t') && !encoded.contains('\n'));
        assert_eq!(decode_field(&encoded).as_deref(), Some(text));
    }
    assert_eq!(decode_field("FF"), None);
    assert_eq!(decode_field("4"), None);
    assert_eq!(decode_field("zz"), None);
}

#[test]
fn cache_lines_give_back_their_application() {
    let mut app = FlatpakApp::new("org.example.App", "App", "Sums\tup");
    app.metadata.size_bytes = Some(7);
    let line = encode_cache_app(&app);
    assert_eq!(decode_cache_app(&line), Some(app));
    assert_eq!(decode_cache_app("too\tfew"), None);
}

#[test]
fn a_foreign_cache_is_refused() {
    assert!(CatalogCache::load("something else\n").is_err());
}

#[test]
fn sizes_are_read_with_their_unit() {
    assert_eq!(parse_size_bytes("2 MiB"), Some(2_097_152));
    assert_eq!(parse_size_bytes("1.5 kB"), Some(1536));
    assert_eq!(parse_size_bytes("12345"), Some(12345));
    assert_eq!(parse_size_bytes("3 parsecs"), None);
    assert_eq!(parse_size_bytes(""), None);
}

fn float_size(value: &str) -> Option<u64> {
    let mut parts = value.split_whitespace();
    let number = parts.next()?.parse::<f64>().ok()?;
    let multiplier = match parts.next()?.to_ascii_lowercase().as_str() {
        "b" => 1.0,
        "kib" => 1024.0,
        "gib" => 1024.0 * 1024.0 * 1024.0,
        "tib" => 1024.0 * 1024.0 * 1024.0 * 1024.0,
        _ => return None,
    };
    let bytes: f64 = number * multiplier;
    if bytes.is_finite() && bytes >= 0.0 && bytes <= u64::MAX as f64 {
        Some(bytes.round() as u64)
    } else {
        None
    }
}

#[test]
fn sizes_are_rounded_like_floating_point() {
    let numbers = [
        "0", "-0", "+7", "1.", ".5", ".", "", "-", "e5", "1e", "1e+", "1e5", "1E5", "1e+5", "1e-5",
        "1e5e5", "1e19", "1.8446744073709551615e19", "18446744073709551616", "18446744073709553664",
        "18446744073709553665", "1e20", "1e400", "0e400", "1e-400", "-1e-400", "-5e-324", "-2e-324",
        "-2.4703282292062327208e-324", "-2.4703282292062327209e-324", "-1e-5", "0.49999999999999994",
        "0.49999999999999997", "0.5", "2.5", "9007199254740993", "9007199254740992.5",
        "9007199254740993.0000000000000000000000000000000000001", "123456789012345678901234567890e-20",
        "0.00000000000000000000000000000000000001e38", "1e99999999999999999999999999999999999999999",
        "1e-99999999999999999999999999999999999999999", "inf", "nan", "infinity", "1_000", "0x10",
        "4503599627370497.5", "4503599627370498.5", "1.3333333333333333333333333333333",
        "16777215.99999999999999999999999999", "999.9999999999999999999999999999999999999999",
    ];
    for number in numbers {
        for unit in ["B", "KiB", "GiB", "TiB", "miles"] {
            let text = format!("{number} {unit}");
            assert_eq!(parse_size_bytes(&text), float_size(&text), "{text}");
        }
    }
}

#[test]
fn categories_are_split_and_trimmed() {
    assert_eq!(parse_categories("Utility;Development;"), ["Utility", "Development"]);
    assert!(parse_categories("").is_empty());
}

#[test]
fn remotes_are_checked_like_identifiers() {
    assert!(validate_remote("flathub").is_ok());
    assert!(validate_remote("a b").is_err());
    assert!(validate_remote("").is_err());
    let runner = FakeRunner::with_results(vec![]);
    let mut backend = FlatpakBackend::with_runner_and_cache_path(runner, None);
    assert_eq!(backend.remote(), "flathub");
    assert!(backend.set_remote("beta").is_ok());
    assert_eq!(backend.remote(), "beta");
    assert!(backend.set_remote("; rm").is_err());
    assert_eq!(backend.remote(), "beta");
}

#[test]
fn offline_words_are_recognised() {
    assert!(looks_offline("Could not resolve host: flathub.org"));
    assert!(!looks_offline("No such option"));
}

#[test]
fn a_failed_refresh_keeps_the_cache() {
    let runner = FakeRunner::with_results(vec![
        success(REMOTE_OUTPUT),
        success(INSTALLED_OUTPUT),
        failure(2, "broken"),
    ]);
    let mut backend = FlatpakBackend::with_runner_and_cache_path(runner, Some("/tmp/c".to_owned()));
    let live = backend.refresh(5);
    assert_eq!(live.apps.len(), 1);
    assert!(backend.take_unsaved(5).is_some());
    assert!(backend.take_unsaved(5).is_none());
    let broken = backend.refresh(6);
    assert!(matches!(broken.state, CatalogState::Error(_)));
    assert_eq!(backend.cached_entries().len(), 1);
    assert_eq!(broken.apps, live.apps);
}

#[test]
fn update_all_is_reported_without_an_application() {
    let runner = FakeRunner::with_results(vec![success("done")]);
    let mut backend = FlatpakBackend::with_runner_and_cache_path(runner, None);
    let report = backend.update_all();
    assert_eq!(report.operation, OperationKind::Update);
    assert_eq!(report.app_id, None);
    assert!(report.is_success());
}

#[test]
fn each_request_runs_its_own_commands_alone() {
    let runner = FakeRunner::with_results(vec![
        failure(2, "invalid option"),
        success(""),
        Err(missing("missing")),
    ]);
    let mut backend = FlatpakBackend::with_runner_and_cache_path(runner, None);
    assert!(backend.runner().calls.borrow().is_empty());
    let calls_after = |backend: &FlatpakBackend<FakeRunner>| {
        let calls = backend.runner().calls.borrow();
        assert!(calls.iter().all(|call| call.0 == "flatpak"));
        calls.iter().map(|call| call.1.join(" ")).collect::<Vec<_>>()
    };
    backend.refresh(1);
    assert_eq!(
        calls_after(&backend),
        [
            "remote-ls --app --columns=application,name,summary,version,branch,arch,origin flathub",
            "list --app --columns=application,name,version,branch,arch,origin",
        ]
    );
    backend.refresh(2);
    assert_eq!(calls_after(&backend).len(), 3);
    backend.update("org.example.App");
    backend.update("--help");
    backend.remove("no dots");
    backend.install("org.example.App");
    backend.remove("org.example.App");
    backend.update_all();
    assert_eq!(
        calls_after(&backend)[3..],
        [
            "update --user --noninteractive --assumeyes org.example.App",
            "install --user --noninteractive --assumeyes flathub org.example.App",
            "uninstall --user --noninteractive --assumeyes org.example.App",
            "update --user --noninteractive --assumeyes",
        ]
    );
}

#[test]
fn the_cache_lives_in_the_cache_home() {
    let home = Some("/home/me".to_owned());
    let path = default_cache_path(&None, &home).unwrap();
    assert!(path.starts_with("/home/me/.cache/"));
    let set = default_cache_path(&Some("/var/cache/me".to_owned()), &home).unwrap();
    assert!(set.starts_with("/var/cache/me/"));
    assert_eq!(default_cache_path(&None, &None), None);
}
