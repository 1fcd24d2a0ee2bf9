//! The Flatpak backend of the application gallery.
//!
//! Commands are argument vectors; no shell is involved. The last successful
//! catalogue is kept, and trusted local entries can be supplied. If Flatpak is
//! absent the result is `Offline`, and no server data is made up.

use crate::app_store::{
    app_views, copy_apps, AppModel, CatalogSource, CatalogState, FlatpakApp,
};
use crate::flatpak_cache::{
    cache_of_text, loading_undoes_saving, storable_app, text_of_cache, CacheModel, CatalogCache,
};
use crate::flatpak_rows::{
    find_app, id_fault, ids_differ, is_remote, merge_installed, merged, parse_installed_apps,
    parse_remote_apps, place_names_the_app, place_of_app, row_apps, validate_app_id, validate_remote,
};
use crate::text::{
    chars_of, concat2, concat3, contains, contains_text, lines, lower_text, lowered,
    option_str_view, option_view, owned, trim, trimmed, views, views_push,
};
use vstd::prelude::*;
use vstd::string::*;

verus! {

/// Output from one executed command.
#[derive(Debug, Clone, PartialEq, Eq)]
pub struct CommandOutput {
    /// Whether the child exited successfully.
    pub success: bool,
    /// Numeric exit code, when the process returned one.
    pub exit_code: Option<i32>,
    /// Standard output, decoded as UTF-8.
    pub stdout: String,
    /// Standard error, decoded as UTF-8.
    pub stderr: String,
}

#[verifier::ext_equal]
pub struct OutputTexts {
    pub success: bool,
    pub exit_code: Option<i32>,
    pub stdout: Seq<char>,
    pub stderr: Seq<char>,
}

impl View for CommandOutput {
    type V = OutputTexts;

    open spec fn view(&self) -> OutputTexts {
        OutputTexts {
            success: self.success,
            exit_code: self.exit_code,
            stdout: self.stdout@,
            stderr: self.stderr@,
        }
    }
}

impl CommandOutput {
    /// A successful result.
    pub fn success(stdout: String) -> (output: Self)
        ensures
            output@ == (OutputTexts {
                success: true,
                exit_code: Some(0),
                stdout: stdout@,
                stderr: Seq::empty(),
            }),
    {
        let stderr = String::new();
        assert(stderr@ =~= Seq::empty());
        CommandOutput { success: true, exit_code: Some(0), stdout, stderr }
    }

    /// A failed result.
    pub fn failure(exit_code: Option<i32>, stderr: String) -> (output: Self)
        ensures
            output@ == (OutputTexts {
                success: false,
                exit_code,
                stdout: Seq::empty(),
                stderr: stderr@,
            }),
    {
        let stdout = String::new();
        assert(stdout@ =~= Seq::empty());
        CommandOutput { success: false, exit_code, stdout, stderr }
    }
}

/// Why a command could not be run: whether its program is missing, and what
/// the operating system reported.
#[derive(Debug, Clone, PartialEq, Eq)]
pub struct RunnerError {
    pub not_found: bool,
    pub message: String,
}

/// A command that was run, and how it ended.
#[verifier::ext_equal]
pub struct CommandRun {
    pub program: Seq<char>,
    pub args: Seq<Seq<char>>,
    pub outcome: Result<CommandOutput, RunnerError>,
}

/// A run of `flatpak`.
pub open spec fn flatpak_run(
    args: Seq<Seq<char>>,
    outcome: Result<CommandOutput, RunnerError>,
) -> CommandRun {
    CommandRun { program: "flatpak"@, args, outcome }
}

/// The seam around process execution.
pub trait FlatpakCommandRunner {
    /// Whether a run of `program` with `args` may end with `outcome` and leave
    /// the runner as `after`. A runner that says nothing of it may do anything;
    /// since nothing else is known of it, what is `after` such a run is only
    /// reached by that run.
    open spec fn may_end(
        &self,
        program: Seq<char>,
        args: Seq<Seq<char>>,
        outcome: Result<CommandOutput, RunnerError>,
        after: &Self,
    ) -> bool {
        true
    }

    /// Runs `program` with already separated arguments.
    fn run(&mut self, program: &str, args: &[String]) -> (outcome: Result<
        CommandOutput,
        RunnerError,
    >)
        ensures
            old(self).may_end(program@, views(args@), outcome, final(self)),
    ;
}

/// A complete catalogue response.
#[derive(Debug, Clone, PartialEq, Eq)]
pub struct CatalogSnapshot {
    pub apps: Vec<FlatpakApp>,
    pub state: CatalogState,
    pub source: CatalogSource,
    /// A diagnostic for a status row.
    pub message: Option<String>,
}

pub enum StateModel {
    Loading,
    Ready,
    Empty,
    Offline,
    Error(Seq<char>),
}

impl View for CatalogState {
    type V = StateModel;

    open spec fn view(&self) -> StateModel {
        match self {
            CatalogState::Loading => StateModel::Loading,
            CatalogState::Ready => StateModel::Ready,
            CatalogState::Empty => StateModel::Empty,
            CatalogState::Offline => StateModel::Offline,
            CatalogState::Error(message) => StateModel::Error(message@),
        }
    }
}

#[verifier::ext_equal]
pub struct SnapshotTexts {
    pub apps: Seq<AppModel>,
    pub state: StateModel,
    pub source: CatalogSource,
    pub message: Option<Seq<char>>,
}

impl View for CatalogSnapshot {
    type V = SnapshotTexts;

    open spec fn view(&self) -> SnapshotTexts {
        SnapshotTexts {
            apps: app_views(self.apps@),
            state: self.state@,
            source: self.source,
            message: option_view(self.message),
        }
    }
}

/// The snapshot with a note that the cache could not be written, behind what it
/// says already.
pub open spec fn with_note(snapshot: SnapshotTexts, error: Seq<char>) -> SnapshotTexts {
    let note = "Catalogue loaded, but cache write failed: "@ + error;
    SnapshotTexts {
        message: Some(
            match snapshot.message {
                Some(existing) => existing + " "@ + note,
                None => note,
            },
        ),
        ..snapshot
    }
}

impl CatalogSnapshot {
    /// Adds to the diagnostic that the cache could not be written.
    pub fn note_cache_failure(&mut self, error: &str)
        ensures
            final(self)@ == with_note(old(self)@, error@),
    {
        let note = concat2("Catalogue loaded, but cache write failed: ", error);
        self.message = match &self.message {
            Some(existing) => Some(concat3(existing.as_str(), " ", note.as_str())),
            None => Some(note),
        };
    }
}

/// Kind of a mutating Flatpak operation.
#[derive(Debug, Clone, Copy, PartialEq, Eq, Structural)]
pub enum OperationKind {
    Install,
    Update,
    Remove,
}

impl OperationKind {
    pub open spec fn spec_label(self) -> Seq<char> {
        match self {
            OperationKind::Install => "Install"@,
            OperationKind::Update => "Update"@,
            OperationKind::Remove => "Remove"@,
        }
    }

    pub fn label(self) -> (label: &'static str)
        ensures
            label@ == self.spec_label(),
    {
        match self {
            OperationKind::Install => "Install",
            OperationKind::Update => "Update",
            OperationKind::Remove => "Remove",
        }
    }
}

/// Result status of a mutating operation.
#[derive(Debug, Clone, Copy, PartialEq, Eq, Structural)]
pub enum OperationStatus {
    /// The command returned exit code zero.
    Succeeded,
    /// Flatpak could not be executed at all.
    Unavailable,
    /// Flatpak ran and rejected or failed the operation.
    Failed,
    /// Input validation rejected the operation before a process was started.
    Rejected,
}

impl OperationStatus {
    /// Whether the requested change was completed.
    pub fn is_success(self) -> (yes: bool)
        ensures
            yes == (self == OperationStatus::Succeeded),
    {
        self == OperationStatus::Succeeded
    }

    /// Whether the host lacks the Flatpak executable.
    pub fn is_unavailable(self) -> (yes: bool)
        ensures
            yes == (self == OperationStatus::Unavailable),
    {
        self == OperationStatus::Unavailable
    }
}

/// Detailed, renderer-independent operation report.
#[derive(Debug, Clone, PartialEq, Eq)]
pub struct OperationReport {
    pub operation: OperationKind,
    pub app_id: Option<String>,
    pub status: OperationStatus,
    pub exit_code: Option<i32>,
    pub message: String,
    pub stdout: String,
    pub stderr: String,
    /// The exact arguments, with the program name, that were run.
    pub command: Vec<String>,
}

#[verifier::ext_equal]
pub struct ReportModel {
    pub operation: OperationKind,
    pub app_id: Option<Seq<char>>,
    pub status: OperationStatus,
    pub exit_code: Option<i32>,
    pub message: Seq<char>,
    pub stdout: Seq<char>,
    pub stderr: Seq<char>,
    pub command: Seq<Seq<char>>,
}

impl View for OperationReport {
    type V = ReportModel;

    open spec fn view(&self) -> ReportModel {
        ReportModel {
            operation: self.operation,
            app_id: option_view(self.app_id),
            status: self.status,
            exit_code: self.exit_code,
            message: self.message@,
            stdout: self.stdout@,
            stderr: self.stderr@,
            command: views(self.command@),
        }
    }
}

impl OperationReport {
    /// Whether the operation completed successfully.
    pub fn is_success(&self) -> (yes: bool)
        ensures
            yes == (self.status == OperationStatus::Succeeded),
    {
        self.status.is_success()
    }

    /// Whether Flatpak was unavailable on the host.
    pub fn is_unavailable(&self) -> (yes: bool)
        ensures
            yes == (self.status == OperationStatus::Unavailable),
    {
        self.status.is_unavailable()
    }
}

// ---- outcomes of commands ----------------------------------------------------------

/// What a failed command has to say.
pub open spec fn failure_text(fallback: Seq<char>, stderr: Seq<char>) -> Seq<char> {
    if trimmed(stderr).len() == 0 {
        fallback
    } else {
        fallback + ": "@ + trimmed(stderr)
    }
}

fn command_message(output: &CommandOutput, fallback: &str) -> (message: String)
    ensures
        message@ == failure_text(fallback@, output.stderr@),
{
    let stderr = trim(output.stderr.as_str());
    if chars_of(stderr.as_str()).len() == 0 {
        fallback.to_owned()
    } else {
        concat3(fallback, ": ", stderr.as_str())
    }
}

/// Whether an error message speaks of the network.
pub open spec fn speaks_of_network(stderr: Seq<char>) -> bool {
    let message = lowered(stderr);
    ||| contains(message, "offline"@)
    ||| contains(message, "network"@)
    ||| contains(message, "connection"@)
    ||| contains(message, "resolve"@)
    ||| contains(message, "timeout"@)
    ||| contains(message, "timed out"@)
    ||| contains(message, "dns"@)
    ||| contains(message, "download"@)
    ||| contains(message, "tls"@)
}

pub fn looks_offline(stderr: &str) -> (yes: bool)
    ensures
        yes == speaks_of_network(stderr@),
{
    let message = lower_text(stderr);
    let text = message.as_str();
    contains_text(text, "offline") || contains_text(text, "network") || contains_text(
        text,
        "connection",
    ) || contains_text(text, "resolve") || contains_text(text, "timeout") || contains_text(
        text,
        "timed out",
    ) || contains_text(text, "dns") || contains_text(text, "download") || contains_text(text, "tls")
}

/// The installed applications that a query told, or why it failed.
pub open spec fn installed_result(outcome: Result<CommandOutput, RunnerError>) -> Result<
    Seq<AppModel>,
    Seq<char>,
> {
    match outcome {
        Err(error) => Err(error.message@),
        Ok(output) => if output.success {
            Ok(row_apps(lines(output.stdout@), true))
        } else {
            Err(failure_text("flatpak list failed"@, output.stderr@))
        },
    }
}

fn read_installed(outcome: Result<CommandOutput, RunnerError>) -> (result: Result<
    Vec<FlatpakApp>,
    String,
>)
    ensures
        match (result, installed_result(outcome)) {
            (Ok(apps), Ok(expected)) => app_views(apps@) == expected,
            (Err(message), Err(expected)) => message@ == expected,
            _ => false,
        },
{
    match outcome {
        Err(error) => Err(error.message),
        Ok(output) => if output.success {
            Ok(parse_installed_apps(output.stdout.as_str()))
        } else {
            Err(command_message(&output, "flatpak list failed"))
        },
    }
}

/// The arguments that list what is installed.
pub open spec fn installed_list() -> Seq<Seq<char>> {
    seq!["list"@, "--app"@, "--columns=application,name,version,branch,arch,origin"@]
}

// ---- the model -----------------------------------------------------------------------

/// What a backend holds, besides its runner.
#[verifier::ext_equal]
pub struct BackendModel {
    pub remote: Seq<char>,
    pub cache: CacheModel,
    pub cache_path: Option<Seq<char>>,
    pub local_fallback: Seq<AppModel>,
    /// Whether the cache is to be written to its path.
    pub unsaved: bool,
}

pub open spec fn no_cache() -> CacheModel {
    CacheModel { entries: Seq::empty(), saved_at: None }
}

pub open spec fn installed_or_none(
    outcome: Option<Result<CommandOutput, RunnerError>>,
) -> Seq<AppModel> {
    match outcome {
        Some(result) => match installed_result(result) {
            Ok(apps) => apps,
            Err(_) => Seq::empty(),
        },
        None => Seq::empty(),
    }
}

impl BackendModel {
    pub open spec fn fresh(cache_path: Option<Seq<char>>) -> Self {
        BackendModel {
            remote: "flathub"@,
            cache: no_cache(),
            cache_path,
            local_fallback: Seq::empty(),
            unsaved: false,
        }
    }

    pub open spec fn remote_query(self) -> Seq<Seq<char>> {
        seq![
            "remote-ls"@,
            "--app"@,
            "--columns=application,name,summary,version,branch,arch,origin"@,
            self.remote,
        ]
    }

    /// What is shown while the remote cannot be read: the cache, else the
    /// local entries, with the installed state merged in.
    pub open spec fn fallback_snapshot(
        self,
        installed: Seq<AppModel>,
        message: Seq<char>,
        is_error: bool,
    ) -> SnapshotTexts {
        let cached = self.cache.entries.len() > 0;
        SnapshotTexts {
            apps: merged(
                if cached {
                    self.cache.entries
                } else {
                    self.local_fallback
                },
                installed,
            ),
            state: if is_error {
                StateModel::Error(message)
            } else {
                StateModel::Offline
            },
            source: if cached {
                CatalogSource::Cache
            } else {
                CatalogSource::Local
            },
            message: Some(message),
        }
    }

    /// The applications of a live catalogue.
    pub open spec fn live_apps(
        self,
        output: CommandOutput,
        installed: Option<Result<CommandOutput, RunnerError>>,
    ) -> Seq<AppModel> {
        merged(row_apps(lines(output.stdout@), false), installed_or_none(installed))
    }

    /// What a refresh shows, given the outcome of the remote query and that of
    /// the query of installed applications.
    pub open spec fn refresh_snapshot(
        self,
        remote: Result<CommandOutput, RunnerError>,
        installed: Option<Result<CommandOutput, RunnerError>>,
    ) -> SnapshotTexts {
        match remote {
            Err(error) => if error.not_found {
                self.fallback_snapshot(
                    Seq::empty(),
                    "Flatpak is not installed; showing only local or cached entries."@,
                    false,
                )
            } else {
                self.fallback_snapshot(
                    installed_or_none(installed),
                    "Flatpak could not query "@ + self.remote + ": "@ + error.message@,
                    true,
                )
            },
            Ok(output) => if !output.success {
                self.fallback_snapshot(
                    installed_or_none(installed),
                    failure_text(
                        "Flathub remote `"@ + self.remote + "` did not respond"@,
                        output.stderr@,
                    ),
                    !speaks_of_network(output.stderr@),
                )
            } else {
                let apps = self.live_apps(output, installed);
                SnapshotTexts {
                    apps,
                    state: if apps.len() == 0 {
                        StateModel::Empty
                    } else {
                        StateModel::Ready
                    },
                    source: CatalogSource::Live,
                    message: match installed {
                        Some(result) => match installed_result(result) {
                            Ok(_) => None,
                            Err(error) => Some(
                                "Catalogue loaded, but installed Flatpak state was unavailable: "@
                                    + error,
                            ),
                        },
                        None => None,
                    },
                }
            },
        }
    }

    /// The backend after a refresh: a live catalogue replaces the cache.
    pub open spec fn refreshed(
        self,
        remote: Result<CommandOutput, RunnerError>,
        installed: Option<Result<CommandOutput, RunnerError>>,
        now: u64,
    ) -> Self {
        match remote {
            Ok(output) if output.success => BackendModel {
                cache: CacheModel {
                    entries: self.live_apps(output, installed),
                    saved_at: Some(now),
                },
                unsaved: self.unsaved || self.cache_path is Some,
                ..self
            },
            _ => self,
        }
    }

    /// The backend with what a cache file holds; a text that is no cache leaves
    /// the cache empty.
    pub open spec fn with_cache(self, body: Seq<char>) -> Self {
        BackendModel {
            cache: match cache_of_text(body) {
                Some(cache) => cache,
                None => no_cache(),
            },
            ..self
        }
    }

    /// The text that is to be written, where the cache has changed.
    pub open spec fn unsaved_text(self, now: u64) -> Option<Seq<char>> {
        if self.unsaved {
            Some(
                text_of_cache(
                    self.cache.entries,
                    match self.cache.saved_at {
                        Some(time) => time,
                        None => now,
                    },
                ),
            )
        } else {
            None
        }
    }

    /// The backend after its text was taken to be written.
    pub open spec fn saved(self) -> Self {
        BackendModel { unsaved: false, ..self }
    }

    /// The backend after an operation that succeeded.
    pub open spec fn applied(self, operation: OperationKind, app_id: Option<Seq<char>>) -> Self {
        let entries = self.cache.entries;
        match app_id {
            None => if operation == OperationKind::Update {
                BackendModel {
                    cache: CacheModel { entries: all_updated(entries), ..self.cache },
                    unsaved: self.unsaved || self.cache_path is Some,
                    ..self
                }
            } else {
                self
            },
            Some(id) => BackendModel {
                cache: CacheModel {
                    entries: match place_of_app(entries, id) {
                        Some(i) => entries.update(i, changed_by(entries[i], operation)),
                        None => entries,
                    },
                    ..self.cache
                },
                unsaved: self.unsaved || self.cache_path is Some,
                ..self
            },
        }
    }

    /// The backend after the command of an operation.
    pub open spec fn operated(
        self,
        operation: OperationKind,
        app_id: Option<Seq<char>>,
        outcome: Result<CommandOutput, RunnerError>,
    ) -> Self {
        match outcome {
            Ok(output) if output.success => self.applied(operation, app_id),
            _ => self,
        }
    }
}

/// The entries after every installed application was updated.
pub open spec fn all_updated(entries: Seq<AppModel>) -> Seq<AppModel> {
    Seq::new(
        entries.len(),
        |i: int|
            if entries[i].installed {
                AppModel { update_available: false, ..entries[i] }
            } else {
                entries[i]
            },
    )
}

/// An application after an operation on it succeeded.
pub open spec fn changed_by(app: AppModel, operation: OperationKind) -> AppModel {
    AppModel {
        installed: match operation {
            OperationKind::Install => true,
            OperationKind::Update => app.installed,
            OperationKind::Remove => false,
        },
        update_available: false,
        ..app
    }
}

/// The report of an operation whose command had this outcome.
pub open spec fn operation_report(
    operation: OperationKind,
    app_id: Option<Seq<char>>,
    args: Seq<Seq<char>>,
    outcome: Result<CommandOutput, RunnerError>,
) -> ReportModel {
    let command = seq!["flatpak"@] + args;
    match outcome {
        Err(error) => ReportModel {
            operation,
            app_id,
            status: if error.not_found {
                OperationStatus::Unavailable
            } else {
                OperationStatus::Failed
            },
            exit_code: None,
            message: if error.not_found {
                "Flatpak is not installed."@
            } else {
                error.message@
            },
            stdout: Seq::empty(),
            stderr: error.message@,
            command,
        },
        Ok(output) => ReportModel {
            operation,
            app_id,
            status: if output.success {
                OperationStatus::Succeeded
            } else {
                OperationStatus::Failed
            },
            exit_code: output.exit_code,
            message: if output.success {
                operation.spec_label() + " completed."@
            } else {
                failure_text(operation.spec_label() + " failed"@, output.stderr@)
            },
            stdout: output.stdout@,
            stderr: output.stderr@,
            command,
        },
    }
}

/// The report of an operation that was rejected before anything ran.
pub open spec fn rejection(
    operation: OperationKind,
    app_id: Seq<char>,
    message: Seq<char>,
) -> ReportModel {
    ReportModel {
        operation,
        app_id: Some(app_id),
        status: OperationStatus::Rejected,
        exit_code: None,
        message,
        stdout: Seq::empty(),
        stderr: Seq::empty(),
        command: Seq::empty(),
    }
}

/// The arguments of an operation, which is always one of the user's own.
pub open spec fn operation_args(
    operation: OperationKind,
    remote: Seq<char>,
    app_id: Option<Seq<char>>,
) -> Seq<Seq<char>> {
    let verb = match operation {
        OperationKind::Install => "install"@,
        OperationKind::Update => "update"@,
        OperationKind::Remove => "uninstall"@,
    };
    let opening = seq![verb, "--user"@, "--noninteractive"@, "--assumeyes"@];
    let with_remote = if operation == OperationKind::Install {
        opening.push(remote)
    } else {
        opening
    };
    match app_id {
        Some(id) => with_remote.push(id),
        None => with_remote,
    }
}

fn arguments(operation: OperationKind, remote: &str, app_id: Option<&str>) -> (args: Vec<String>)
    ensures
        views(args@) == operation_args(operation, remote@, option_str_view(app_id)),
{
    let verb = match operation {
        OperationKind::Install => "install",
        OperationKind::Update => "update",
        OperationKind::Remove => "uninstall",
    };
    let mut args: Vec<String> = Vec::new();
    args.push(verb.to_owned());
    args.push("--user".to_owned());
    args.push("--noninteractive".to_owned());
    args.push("--assumeyes".to_owned());
    if operation == OperationKind::Install {
        args.push(remote.to_owned());
    }
    match app_id {
        Some(id) => args.push(id.to_owned()),
        None => {},
    }
    assert(views(args@) =~= operation_args(operation, remote@, option_str_view(app_id)));
    args
}

fn rejected_report(operation: OperationKind, app_id: &str, message: String) -> (report:
    OperationReport)
    ensures
        report@ == rejection(operation, app_id@, message@),
{
    let stdout = String::new();
    let stderr = String::new();
    let command: Vec<String> = Vec::new();
    assert(stdout@ =~= Seq::empty());
    assert(stderr@ =~= Seq::empty());
    assert(views(command@) =~= Seq::empty());
    OperationReport {
        operation,
        app_id: Some(app_id.to_owned()),
        status: OperationStatus::Rejected,
        exit_code: None,
        message,
        stdout,
        stderr,
        command,
    }
}

// ---- the backend -----------------------------------------------------------------------

/// Backend state and Flatpak command surface.
pub struct FlatpakBackend<R> {
    runner: R,
    remote: String,
    cache: CatalogCache,
    cache_path: Option<String>,
    local_fallback: Vec<FlatpakApp>,
    unsaved: bool,
}

impl<R: FlatpakCommandRunner> FlatpakBackend<R> {
    /// The runner of its commands.
    pub closed spec fn commands(&self) -> R {
        self.runner
    }

    pub closed spec fn model(&self) -> BackendModel {
        BackendModel {
            remote: self.remote@,
            cache: self.cache@,
            cache_path: option_view(self.cache_path),
            local_fallback: app_views(self.local_fallback@),
            unsaved: self.unsaved,
        }
    }

    /// A backend around a command runner, with the user's default cache path,
    /// from `XDG_CACHE_HOME` and `HOME`.
    pub fn with_runner(runner: R, cache_home: &Option<String>, home: &Option<String>) -> (backend:
        Self)
        ensures
            backend.commands() == runner,
            backend.model() == BackendModel::fresh(
                crate::flatpak_cache::cache_place(option_view(*cache_home), option_view(*home)),
            ),
    {
        FlatpakBackend::with_runner_and_cache_path(
            runner,
            crate::flatpak_cache::default_cache_path(cache_home, home),
        )
    }

    /// A backend with a runner and a cache path; its cache is empty, and nothing
    /// was run.
    pub fn with_runner_and_cache_path(runner: R, cache_path: Option<String>) -> (backend: Self)
        ensures
            backend.commands() == runner,
            backend.model() == BackendModel::fresh(option_view(cache_path)),
    {
        let local_fallback: Vec<FlatpakApp> = Vec::new();
        assert(app_views(local_fallback@) =~= Seq::empty());
        FlatpakBackend {
            runner,
            remote: "flathub".to_owned(),
            cache: CatalogCache::default(),
            cache_path,
            local_fallback,
            unsaved: false,
        }
    }

    /// Takes over what the cache file holds; a text that is not a cache leaves
    /// the cache empty.
    pub fn load_cache(&mut self, body: &str)
        ensures
            final(self).commands() == old(self).commands(),
            final(self).model() == old(self).model().with_cache(body@),
    {
        self.cache = match CatalogCache::load(body) {
            Ok(cache) => cache,
            Err(_) => CatalogCache::default(),
        };
    }

    /// The text to write to the cache path, when the cache has changed since
    /// it was last written.
    pub fn take_unsaved(&mut self, now: u64) -> (body: Option<String>)
        ensures
            final(self).commands() == old(self).commands(),
            final(self).model() == old(self).model().saved(),
            option_view(body) == old(self).model().unsaved_text(now),
    {
        if self.unsaved {
            self.unsaved = false;
            Some(self.cache.save(now))
        } else {
            None
        }
    }

    /// The command runner.
    pub fn runner(&self) -> (runner: &R)
        ensures
            *runner == self.commands(),
    {
        &self.runner
    }

    /// The remote name used by read and install commands.
    pub fn remote(&self) -> (remote: &str)
        ensures
            remote@ == self.model().remote,
    {
        self.remote.as_str()
    }

    /// Changes the remote to a simple Flatpak remote name.
    pub fn set_remote(&mut self, remote: &str) -> (result: Result<(), String>)
        ensures
            final(self).commands() == old(self).commands(),
            match result {
                Ok(_) => is_remote(remote@) && final(self).model() == (BackendModel {
                    remote: remote@,
                    ..old(self).model()
                }),
                Err(message) => !is_remote(remote@) && message@
                    == "Flatpak remote must be a simple name"@ && final(self).model() == old(
                    self,
                ).model(),
            },
    {
        match validate_remote(remote) {
            Err(message) => Err(message),
            Ok(_) => {
                self.remote = remote.to_owned();
                Ok(())
            },
        }
    }

    /// The configured cache path, if disk persistence is available.
    pub fn cache_path(&self) -> (path: Option<&str>)
        ensures
            option_str_view(path) == self.model().cache_path,
    {
        match &self.cache_path {
            Some(path) => Some(path.as_str()),
            None => None,
        }
    }

    /// The last cached entries.
    pub fn cached_entries(&self) -> (entries: &Vec<FlatpakApp>)
        ensures
            app_views(entries@) == self.model().cache.entries,
    {
        self.cache.entries()
    }

    /// Sets trusted local entries for the case without Flatpak.
    pub fn set_local_fallback(&mut self, entries: Vec<FlatpakApp>)
        ensures
            final(self).commands() == old(self).commands(),
            final(self).model() == (BackendModel {
                local_fallback: app_views(entries@),
                ..old(self).model()
            }),
    {
        self.local_fallback = entries;
    }

    /// Builder form of [`Self::set_local_fallback`].
    pub fn with_local_fallback(self, entries: Vec<FlatpakApp>) -> (backend: Self)
        ensures
            backend.commands() == self.commands(),
            backend.model() == (BackendModel {
                local_fallback: app_views(entries@),
                ..self.model()
            }),
    {
        let mut backend = self;
        backend.set_local_fallback(entries);
        backend
    }

    /// Arguments used for the live remote query.
    pub fn remote_list_args(&self) -> (args: Vec<String>)
        ensures
            views(args@) == self.model().remote_query(),
    {
        let mut args: Vec<String> = Vec::new();
        args.push("remote-ls".to_owned());
        args.push("--app".to_owned());
        args.push("--columns=application,name,summary,version,branch,arch,origin".to_owned());
        args.push(self.remote.clone());
        assert(views(args@) =~= self.model().remote_query());
        args
    }

    fn fall_back(&self, installed: Vec<FlatpakApp>, message: String, is_error: bool) -> (snapshot:
        CatalogSnapshot)
        ensures
            snapshot@ == self.model().fallback_snapshot(
                app_views(installed@),
                message@,
                is_error,
            ),
    {
        let cached = !self.cache.is_empty();
        let mut apps = if cached {
            copy_apps(self.cache.entries())
        } else {
            copy_apps(&self.local_fallback)
        };
        merge_installed(&mut apps, installed);
        let source = if cached {
            CatalogSource::Cache
        } else {
            CatalogSource::Local
        };
        let state = if is_error {
            CatalogState::Error(message.clone())
        } else {
            CatalogState::Offline
        };
        CatalogSnapshot { apps, state, source, message: Some(message) }
    }

    /// Concludes a refresh from the outcome of the remote query and that of
    /// the query of installed applications, where that was made.
    pub fn finish_refresh(
        &mut self,
        remote: Result<CommandOutput, RunnerError>,
        installed: Option<Result<CommandOutput, RunnerError>>,
        now: u64,
    ) -> (snapshot: CatalogSnapshot)
        ensures
            final(self).commands() == old(self).commands(),
            final(self).model() == old(self).model().refreshed(remote, installed, now),
            snapshot@ == old(self).model().refresh_snapshot(remote, installed),
    {
        let ghost told = installed;
        let mut fault: Option<String> = None;
        let installed_apps: Vec<FlatpakApp> = match installed {
            Some(result) => match read_installed(result) {
                Ok(apps) => apps,
                Err(message) => {
                    fault = Some(message);
                    Vec::new()
                },
            },
            None => Vec::new(),
        };
        assert(app_views(installed_apps@) =~= installed_or_none(told));
        match remote {
            Err(error) => if error.not_found {
                let none: Vec<FlatpakApp> = Vec::new();
                assert(app_views(none@) =~= Seq::empty());
                self.fall_back(
                    none,
                    "Flatpak is not installed; showing only local or cached entries.".to_owned(),
                    false,
                )
            } else {
                let opening = concat3("Flatpak could not query ", self.remote.as_str(), ": ");
                let message = concat2(opening.as_str(), error.message.as_str());
                self.fall_back(installed_apps, message, true)
            },
            Ok(output) => if !output.success {
                let fallback = concat3(
                    "Flathub remote `",
                    self.remote.as_str(),
                    "` did not respond",
                );
                let message = command_message(&output, fallback.as_str());
                self.fall_back(installed_apps, message, !looks_offline(output.stderr.as_str()))
            } else {
                let mut apps = parse_remote_apps(output.stdout.as_str());
                merge_installed(&mut apps, installed_apps);
                let message = match fault {
                    Some(error) => Some(
                        concat2(
                            "Catalogue loaded, but installed Flatpak state was unavailable: ",
                            error.as_str(),
                        ),
                    ),
                    None => None,
                };
                self.cache.replace(copy_apps(&apps), now);
                if self.cache_path.is_some() {
                    self.unsaved = true;
                }
                let state = if apps.len() == 0 {
                    CatalogState::Empty
                } else {
                    CatalogState::Ready
                };
                CatalogSnapshot { apps, state, source: CatalogSource::Live, message }
            },
        }
    }

    /// Refreshes the catalogue, and falls back to the cache or local entries
    /// when the remote is unavailable or unreachable. `now` is the wall clock
    /// in seconds. The remote is queried, then what is installed, unless the
    /// program is missing; nothing else is run.
    pub fn refresh(&mut self, now: u64) -> (snapshot: CatalogSnapshot)
        ensures
            exists|
                remote: Result<CommandOutput, RunnerError>,
                installed: Option<Result<CommandOutput, RunnerError>>,
                between: R,
            |
                {
                    &&& #[trigger] reads_catalogue(
                        old(self).commands(),
                        between,
                        final(self).commands(),
                        old(self).model().remote_query(),
                        remote,
                        installed,
                    )
                    &&& final(self).model() == old(self).model().refreshed(remote, installed, now)
                    &&& snapshot@ == old(self).model().refresh_snapshot(remote, installed)
                },
    {
        let ghost before = self.commands();
        let ghost told = self.model();
        let args = self.remote_list_args();
        let remote = self.runner.run("flatpak", args.as_slice());
        let ghost between = self.commands();
        assert(self.model() == told);
        let missing = match &remote {
            Err(error) => error.not_found,
            Ok(_) => false,
        };
        let installed = if missing {
            None
        } else {
            let mut args: Vec<String> = Vec::new();
            args.push("list".to_owned());
            args.push("--app".to_owned());
            args.push("--columns=application,name,version,branch,arch,origin".to_owned());
            assert(views(args@) =~= installed_list());
            Some(self.runner.run("flatpak", args.as_slice()))
        };
        assert(self.model() == told);
        assert(reads_catalogue(
            before,
            between,
            self.commands(),
            told.remote_query(),
            remote,
            installed,
        ));
        self.finish_refresh(remote, installed, now)
    }

    /// Concludes an operation from the outcome of its command.
    pub fn finish_operation(
        &mut self,
        operation: OperationKind,
        app_id: Option<&str>,
        args: &Vec<String>,
        outcome: Result<CommandOutput, RunnerError>,
    ) -> (report: OperationReport)
        ensures
            final(self).commands() == old(self).commands(),
            final(self).model() == old(self).model().operated(
                operation,
                option_str_view(app_id),
                outcome,
            ),
            report@ == operation_report(
                operation,
                option_str_view(app_id),
                views(args@),
                outcome,
            ),
    {
        let mut command: Vec<String> = Vec::new();
        command.push("flatpak".to_owned());
        let ghost all = views(args@);
        let mut i: usize = 0;
        assert(views(command@) =~= seq!["flatpak"@] + all.subrange(0, 0));
        while i < args.len()
            invariant
                i <= args.len(),
                all == views(args@),
                views(command@) == seq!["flatpak"@] + all.subrange(0, i as int),
            decreases args.len() - i,
        {
            let next = args[i].clone();
            proof {
                views_push(command@, next);
                assert((seq!["flatpak"@] + all.subrange(0, i as int)).push(next@)
                    =~= seq!["flatpak"@] + all.subrange(0, i + 1));
            }
            command.push(next);
            i += 1;
        }
        assert(all.subrange(0, i as int) =~= all);
        match outcome {
            Err(error) => {
                let stdout = String::new();
                assert(stdout@ =~= Seq::empty());
                let (status, message) = if error.not_found {
                    (OperationStatus::Unavailable, "Flatpak is not installed.".to_owned())
                } else {
                    (OperationStatus::Failed, error.message.clone())
                };
                OperationReport {
                    operation,
                    app_id: owned(app_id),
                    status,
                    exit_code: None,
                    message,
                    stdout,
                    stderr: error.message,
                    command,
                }
            },
            Ok(output) => {
                let (status, message) = if output.success {
                    (OperationStatus::Succeeded, concat2(operation.label(), " completed."))
                } else {
                    (
                        OperationStatus::Failed,
                        command_message(&output, concat2(operation.label(), " failed").as_str()),
                    )
                };
                if output.success {
                    self.apply_operation(operation, app_id);
                }
                OperationReport {
                    operation,
                    app_id: owned(app_id),
                    status,
                    exit_code: output.exit_code,
                    message,
                    stdout: output.stdout,
                    stderr: output.stderr,
                    command,
                }
            },
        }
    }

    fn apply_operation(&mut self, operation: OperationKind, app_id: Option<&str>)
        ensures
            final(self).commands() == old(self).commands(),
            final(self).model() == old(self).model().applied(operation, option_str_view(app_id)),
    {
        let ghost runner = self.commands();
        let ghost before = self.model();
        let ghost entries = before.cache.entries;
        match app_id {
            None => {
                if operation == OperationKind::Update {
                    let count: usize = self.cache.entries().len();
                    let mut i: usize = 0;
                    while i < count
                        invariant
                            i <= count,
                            count == entries.len(),
                            self.commands() == runner,
                            self.model().cache.entries.len() == count,
                            self.model().cache.saved_at == before.cache.saved_at,
                            self.model() == (BackendModel {
                                cache: self.model().cache,
                                ..before
                            }),
                            forall|k: int|
                                0 <= k < i ==> (#[trigger] self.model().cache.entries[k])
                                    == all_updated(entries)[k],
                            forall|k: int|
                                i <= k < count ==> (#[trigger] self.model().cache.entries[k])
                                    == entries[k],
                        decreases count - i,
                    {
                        let ghost list = self.model().cache.entries;
                        assert(list[i as int] == entries[i as int]);
                        let mut app = self.cache.entries()[i].duplicate();
                        assert(app@ == list[i as int]);
                        if app.installed {
                            app.update_available = false;
                            let ghost told = app@;
                            self.cache.set_entry(i, app);
                            assert(self.model().cache.entries == list.update(i as int, told));
                        }
                        i += 1;
                    }
                    assert(self.model().cache.entries =~= all_updated(entries));
                    if self.cache_path.is_some() {
                        self.unsaved = true;
                    }
                    assert(self.model() =~= before.applied(operation, None));
                }
            },
            Some(id) => {
                match find_app(self.cache.entries(), id) {
                    Some(place) => {
                        let mut app = self.cache.entries()[place].duplicate();
                        assert(app@ == entries[place as int]);
                        match operation {
                            OperationKind::Install => {
                                app.installed = true;
                            },
                            OperationKind::Update => {},
                            OperationKind::Remove => {
                                app.installed = false;
                            },
                        }
                        app.update_available = false;
                        self.cache.set_entry(place, app);
                    },
                    None => {},
                }
                if self.cache_path.is_some() {
                    self.unsaved = true;
                }
                assert(self.model() =~= before.applied(operation, Some(id@)));
            },
        }
    }

    fn operate(&mut self, operation: OperationKind, app_id: &str) -> (report: OperationReport)
        ensures
            carries_out(
                old(self).commands(),
                final(self).commands(),
                old(self).model(),
                final(self).model(),
                report@,
                operation,
                app_id@,
            ),
    {
        match validate_app_id(app_id) {
            Err(message) => rejected_report(operation, app_id, message),
            Ok(_) => {
                let args = arguments(operation, self.remote.as_str(), Some(app_id));
                let outcome = self.runner.run("flatpak", args.as_slice());
                self.finish_operation(operation, Some(app_id), &args, outcome)
            },
        }
    }

    /// Installs one application for the current user.
    pub fn install(&mut self, app_id: &str) -> (report: OperationReport)
        ensures
            carries_out(
                old(self).commands(),
                final(self).commands(),
                old(self).model(),
                final(self).model(),
                report@,
                OperationKind::Install,
                app_id@,
            ),
    {
        self.operate(OperationKind::Install, app_id)
    }

    /// Updates one application for the current user.
    pub fn update(&mut self, app_id: &str) -> (report: OperationReport)
        ensures
            carries_out(
                old(self).commands(),
                final(self).commands(),
                old(self).model(),
                final(self).model(),
                report@,
                OperationKind::Update,
                app_id@,
            ),
    {
        self.operate(OperationKind::Update, app_id)
    }

    /// Updates every installed application for the current user, with one
    /// command.
    pub fn update_all(&mut self) -> (report: OperationReport)
        ensures
            exists|outcome: Result<CommandOutput, RunnerError>|
                {
                    &&& old(self).commands().may_end(
                        "flatpak"@,
                        operation_args(OperationKind::Update, old(self).model().remote, None),
                        outcome,
                        &final(self).commands(),
                    )
                    &&& final(self).model() == #[trigger] old(self).model().operated(
                        OperationKind::Update,
                        None,
                        outcome,
                    )
                    &&& report@ == operation_report(
                        OperationKind::Update,
                        None,
                        operation_args(OperationKind::Update, old(self).model().remote, None),
                        outcome,
                    )
                },
    {
        let args = arguments(OperationKind::Update, self.remote.as_str(), None);
        let outcome = self.runner.run("flatpak", args.as_slice());
        self.finish_operation(OperationKind::Update, None, &args, outcome)
    }

    /// Removes one application for the current user.
    pub fn remove(&mut self, app_id: &str) -> (report: OperationReport)
        ensures
            carries_out(
                old(self).commands(),
                final(self).commands(),
                old(self).model(),
                final(self).model(),
                report@,
                OperationKind::Remove,
                app_id@,
            ),
    {
        self.operate(OperationKind::Remove, app_id)
    }
}

/// Whether a catalogue was read as it should be: the remote was queried, and
/// then what is installed, unless the program is missing. Between the two runs
/// the runner was `between`; it was handed no other command.
pub open spec fn reads_catalogue<R: FlatpakCommandRunner>(
    runner: R,
    between: R,
    after: R,
    query: Seq<Seq<char>>,
    remote: Result<CommandOutput, RunnerError>,
    installed: Option<Result<CommandOutput, RunnerError>>,
) -> bool {
    let missing = remote matches Err(error) && error.not_found;
    &&& runner.may_end("flatpak"@, query, remote, &between)
    &&& match installed {
        None => missing && after == between,
        Some(outcome) => !missing && between.may_end(
            "flatpak"@,
            installed_list(),
            outcome,
            &after,
        ),
    }
}

/// Whether an operation on one application went as it should: an invalid
/// identifier is rejected, runs nothing and changes nothing; otherwise its
/// command is run, once and with no other, and the outcome decides the report
/// and the cache.
pub open spec fn carries_out<R: FlatpakCommandRunner>(
    runner: R,
    runner_after: R,
    before: BackendModel,
    after: BackendModel,
    report: ReportModel,
    operation: OperationKind,
    app_id: Seq<char>,
) -> bool {
    match id_fault(app_id) {
        Some(message) => {
            &&& runner_after == runner
            &&& after == before
            &&& report == rejection(operation, app_id, message)
        },
        None => exists|outcome: Result<CommandOutput, RunnerError>|
            {
                &&& runner.may_end(
                    "flatpak"@,
                    operation_args(operation, before.remote, Some(app_id)),
                    outcome,
                    &runner_after,
                )
                &&& after == #[trigger] before.operated(operation, Some(app_id), outcome)
                &&& report == operation_report(
                    operation,
                    Some(app_id),
                    operation_args(operation, before.remote, Some(app_id)),
                    outcome,
                )
            },
    }
}

// ---- laws ------------------------------------------------------------------------

/// Whether `log` is a record of what a kind of runner was handed: it grows with
/// each run, by that run.
pub open spec fn records<R: FlatpakCommandRunner>(log: spec_fn(R) -> Seq<CommandRun>) -> bool {
    forall|
        runner: R,
        program: Seq<char>,
        args: Seq<Seq<char>>,
        outcome: Result<CommandOutput, RunnerError>,
        after: R,
    | #[trigger]
        runner.may_end(program, args, outcome, &after) ==> log(after) == log(runner).push(
            CommandRun { program, args, outcome },
        )
}

/// An operation on one application runs its own command, once, and no other;
/// with an invalid identifier it runs nothing.
pub proof fn an_operation_runs_its_command_alone<R: FlatpakCommandRunner>(
    log: spec_fn(R) -> Seq<CommandRun>,
    runner: R,
    runner_after: R,
    before: BackendModel,
    after: BackendModel,
    report: ReportModel,
    operation: OperationKind,
    app_id: Seq<char>,
)
    requires
        records(log),
        carries_out(runner, runner_after, before, after, report, operation, app_id),
    ensures
        id_fault(app_id) is Some ==> log(runner_after) == log(runner),
        id_fault(app_id) is None ==> exists|outcome: Result<CommandOutput, RunnerError>|
            log(runner_after) == log(runner).push(
                #[trigger] flatpak_run(
                    operation_args(operation, before.remote, Some(app_id)),
                    outcome,
                ),
            ),
{
    if id_fault(app_id) is None {
        let args = operation_args(operation, before.remote, Some(app_id));
        let outcome = choose|outcome: Result<CommandOutput, RunnerError>|
            {
                &&& runner.may_end("flatpak"@, args, outcome, &runner_after)
                &&& after == #[trigger] before.operated(operation, Some(app_id), outcome)
                &&& report == operation_report(operation, Some(app_id), args, outcome)
            };
        assert(log(runner_after) == log(runner).push(flatpak_run(args, outcome)));
    }
}

/// A refresh queries the remote, and then what is installed unless the program
/// is missing; it runs nothing else.
pub proof fn a_refresh_runs_its_queries_alone<R: FlatpakCommandRunner>(
    log: spec_fn(R) -> Seq<CommandRun>,
    runner: R,
    between: R,
    after: R,
    query: Seq<Seq<char>>,
    remote: Result<CommandOutput, RunnerError>,
    installed: Option<Result<CommandOutput, RunnerError>>,
)
    requires
        records(log),
        reads_catalogue(runner, between, after, query, remote, installed),
    ensures
        installed is None <==> (remote matches Err(error) && error.not_found),
        log(after) == (match installed {
            None => log(runner).push(flatpak_run(query, remote)),
            Some(outcome) => log(runner).push(flatpak_run(query, remote)).push(
                flatpak_run(installed_list(), outcome),
            ),
        }),
{
}

/// Only a live catalogue replaces the cache: whatever else came back, the
/// backend is as it was.
pub proof fn failures_keep_the_cache(
    backend: BackendModel,
    remote: Result<CommandOutput, RunnerError>,
    installed: Option<Result<CommandOutput, RunnerError>>,
    now: u64,
)
    requires
        remote matches Ok(output) ==> !output.success,
    ensures
        backend.refreshed(remote, installed, now) == backend,
        backend.refresh_snapshot(remote, installed).source != CatalogSource::Live,
{
}

/// Without Flatpak the result is offline, and shows exactly the cache, or the
/// trusted local entries where the cache is empty: no data is made up.
pub proof fn a_missing_flatpak_is_offline(
    backend: BackendModel,
    error: RunnerError,
    installed: Option<Result<CommandOutput, RunnerError>>,
)
    requires
        error.not_found,
    ensures
        ({
            let snapshot = backend.refresh_snapshot(Err(error), installed);
            &&& snapshot.state == StateModel::Offline
            &&& snapshot.apps == (if backend.cache.entries.len() > 0 {
                backend.cache.entries
            } else {
                backend.local_fallback
            })
        }),
{
}

/// What a live refresh shows is what the cache then holds.
pub proof fn the_cache_is_what_was_shown(
    backend: BackendModel,
    output: CommandOutput,
    installed: Option<Result<CommandOutput, RunnerError>>,
    now: u64,
)
    requires
        output.success,
    ensures
        backend.refreshed(Ok(output), installed, now).cache.entries
            == backend.refresh_snapshot(Ok(output), installed).apps,
        backend.refreshed(Ok(output), installed, now).cache.saved_at == Some(now),
{
}

/// Every command of an operation acts for the user alone, and never asks.
pub proof fn operations_are_the_users_own(
    operation: OperationKind,
    remote: Seq<char>,
    app_id: Option<Seq<char>>,
)
    ensures
        operation_args(operation, remote, app_id).len() >= 4,
        operation_args(operation, remote, app_id)[1] == "--user"@,
        operation_args(operation, remote, app_id)[2] == "--noninteractive"@,
        app_id matches Some(id) ==> operation_args(operation, remote, app_id).last() == id,
{
}

/// The words by which a message is taken to speak of the network.
pub open spec fn is_network_word(word: Seq<char>) -> bool {
    ||| word == "offline"@
    ||| word == "network"@
    ||| word == "connection"@
    ||| word == "resolve"@
    ||| word == "timeout"@
    ||| word == "timed out"@
    ||| word == "dns"@
    ||| word == "download"@
    ||| word == "tls"@
}

/// A message speaks of the network exactly where one of these words stands in
/// it, in whatever case and whatever stands around it.
pub proof fn network_words_are_found_anywhere(message: Seq<char>, at: int, word: Seq<char>)
    ensures
        speaks_of_network(message) <==> exists|w: Seq<char>|
            is_network_word(w) && #[trigger] contains(lowered(message), w),
        is_network_word(word) && 0 <= at <= message.len() - word.len() && (forall|k: int|
            0 <= k < word.len() ==> lowered(message)[at + k] == #[trigger] word[k])
            ==> speaks_of_network(message),
{
    if is_network_word(word) && 0 <= at <= message.len() - word.len() && (forall|k: int|
        0 <= k < word.len() ==> lowered(message)[at + k] == #[trigger] word[k]) {
        assert(lowered(message).subrange(at, at + word.len()) =~= word);
        assert(contains(lowered(message), word));
    }
}

/// What a refresh tells: it is live exactly where the remote query succeeded,
/// and then ready or, without applications, empty. Where Flatpak is missing or
/// speaks of the network it is offline, and where anything else failed it is an
/// error that tells the reason. What is shown then comes from the cache, or from
/// the local entries where the cache has none.
pub proof fn refreshes_tell_how_they_went(
    backend: BackendModel,
    remote: Result<CommandOutput, RunnerError>,
    installed: Option<Result<CommandOutput, RunnerError>>,
    snapshot: CatalogSnapshot,
)
    requires
        snapshot@ == backend.refresh_snapshot(remote, installed),
    ensures
        ({
            let live = remote matches Ok(output) && output.success;
            let missing = remote matches Err(error) && error.not_found;
            let network = remote matches Ok(output) && !output.success && speaks_of_network(
                output.stderr@,
            );
            &&& snapshot.source == CatalogSource::Live <==> live
            &&& snapshot.source == CatalogSource::Cache <==> !live && backend.cache.entries.len()
                > 0
            &&& snapshot.source == CatalogSource::Local <==> !live && backend.cache.entries.len()
                == 0
            &&& snapshot.state == CatalogState::Ready <==> live && snapshot.apps@.len() > 0
            &&& snapshot.state == CatalogState::Empty <==> live && snapshot.apps@.len() == 0
            &&& snapshot.state == CatalogState::Offline <==> missing || network
            &&& snapshot.state is Error <==> !live && !missing && !network
            &&& snapshot.state matches CatalogState::Error(message) ==> (
            snapshot.message matches Some(told) && told@ == message@)
            &&& !live ==> snapshot.message is Some
        }),
        remote matches Err(error) ==> (!error.not_found ==> (snapshot.message matches Some(told)
            && told@ == "Flatpak could not query "@ + backend.remote + ": "@ + error.message@)),
        remote matches Ok(output) ==> (!output.success && trimmed(output.stderr@).len() > 0 ==> (
        snapshot.message matches Some(told) && told@ == "Flathub remote `"@ + backend.remote
            + "` did not respond"@ + ": "@ + trimmed(output.stderr@))),
{
    assert(snapshot@.apps.len() == snapshot.apps@.len());
}

/// A live catalogue is what the remote told, with the installed applications
/// merged in; and where those could not be read it is the remote's alone, with a
/// message that says so.
pub proof fn live_catalogues_are_what_was_told(
    backend: BackendModel,
    output: CommandOutput,
    listed: Result<CommandOutput, RunnerError>,
    snapshot: CatalogSnapshot,
)
    requires
        output.success,
        snapshot@ == backend.refresh_snapshot(Ok(output), Some(listed)),
    ensures
        match listed {
            Ok(list) if list.success => {
                &&& app_views(snapshot.apps@) == merged(
                    row_apps(lines(output.stdout@), false),
                    row_apps(lines(list.stdout@), true),
                )
                &&& snapshot.message is None
            },
            _ => {
                &&& app_views(snapshot.apps@) == row_apps(lines(output.stdout@), false)
                &&& snapshot.message is Some
            },
        },
{
    reveal_with_fuel(merged, 2);
}

/// What is shown without the remote: the cache, or the local entries where it
/// has none, with what is installed merged in where that could be read.
pub proof fn fallbacks_show_what_is_known(
    backend: BackendModel,
    remote: Result<CommandOutput, RunnerError>,
    list: CommandOutput,
    snapshot: CatalogSnapshot,
)
    requires
        remote matches Ok(output) ==> !output.success,
        remote matches Err(error) ==> !error.not_found,
        snapshot@ == backend.refresh_snapshot(remote, Some(Ok(list))),
    ensures
        ({
            let known = if backend.cache.entries.len() > 0 {
                backend.cache.entries
            } else {
                backend.local_fallback
            };
            &&& list.success ==> app_views(snapshot.apps@) == merged(
                known,
                row_apps(lines(list.stdout@), true),
            )
            &&& !list.success ==> app_views(snapshot.apps@) == known
        }),
{
    reveal_with_fuel(merged, 2);
}

/// The report of an operation tells its outcome: it succeeded exactly where the
/// command did, Flatpak is unavailable exactly where its program is missing, and
/// anything else failed. What the command wrote is passed on, and its arguments
/// are told behind the program.
pub proof fn reports_tell_the_outcome(
    operation: OperationKind,
    app_id: Option<Seq<char>>,
    args: Seq<Seq<char>>,
    outcome: Result<CommandOutput, RunnerError>,
    report: OperationReport,
)
    requires
        report@ == operation_report(operation, app_id, args, outcome),
    ensures
        report.operation == operation,
        option_view(report.app_id) == app_id,
        report.status == OperationStatus::Succeeded <==> (outcome matches Ok(output)
            && output.success),
        report.status == OperationStatus::Unavailable <==> (outcome matches Err(error)
            && error.not_found),
        report.status != OperationStatus::Rejected,
        outcome matches Ok(output) ==> report.exit_code == output.exit_code && report.stdout@
            == output.stdout@ && report.stderr@ == output.stderr@,
        outcome matches Err(error) ==> report.exit_code is None && report.stderr@ == error.message@
            && (!error.not_found ==> report.message@ == error.message@),
        report.command@.len() == args.len() + 1,
        report.command@[0]@ == "flatpak"@,
        forall|i: int| 0 <= i < args.len() ==> (#[trigger] report.command@[i + 1])@ == args[i],
        outcome matches Ok(output) && output.success ==> report.message@ == (match operation {
            OperationKind::Install => "Install"@,
            OperationKind::Update => "Update"@,
            OperationKind::Remove => "Remove"@,
        }) + " completed."@,
{
    let command = views(report.command@);
    assert(command == seq!["flatpak"@] + args);
    assert(command.len() == report.command@.len());
    assert(command[0] == report.command@[0]@);
    assert forall|i: int| 0 <= i < args.len() implies (#[trigger] report.command@[i + 1])@
        == args[i] by {
        assert(command[i + 1] == report.command@[i + 1]@);
    }
}

/// A rejected operation ran no command, and tells why.
pub proof fn rejections_ran_nothing(
    operation: OperationKind,
    app_id: Seq<char>,
    message: Seq<char>,
    report: OperationReport,
)
    requires
        report@ == rejection(operation, app_id, message),
    ensures
        report.status == OperationStatus::Rejected,
        report.operation == operation,
        option_view(report.app_id) == Some(app_id),
        report.message@ == message,
        report.command@.len() == 0,
        report.exit_code is None,
{
    assert(views(report.command@).len() == report.command@.len());
}

/// The commands of the three operations, word for word: only an installation
/// names the remote, and an operation on one application ends with it.
pub proof fn operations_have_these_commands(remote: Seq<char>, id: Seq<char>)
    ensures
        operation_args(OperationKind::Install, remote, Some(id)) == seq![
            "install"@,
            "--user"@,
            "--noninteractive"@,
            "--assumeyes"@,
            remote,
            id,
        ],
        operation_args(OperationKind::Update, remote, Some(id)) == seq![
            "update"@,
            "--user"@,
            "--noninteractive"@,
            "--assumeyes"@,
            id,
        ],
        operation_args(OperationKind::Update, remote, None) == seq![
            "update"@,
            "--user"@,
            "--noninteractive"@,
            "--assumeyes"@,
        ],
        operation_args(OperationKind::Remove, remote, Some(id)) == seq![
            "uninstall"@,
            "--user"@,
            "--noninteractive"@,
            "--assumeyes"@,
            id,
        ],
        installed_list() == seq![
            "list"@,
            "--app"@,
            "--columns=application,name,version,branch,arch,origin"@,
        ],
{
    let opening = seq!["--user"@, "--noninteractive"@, "--assumeyes"@];
    assert(operation_args(OperationKind::Install, remote, Some(id)) =~= seq!["install"@] + opening
        + seq![remote, id]);
    assert(operation_args(OperationKind::Update, remote, Some(id)) =~= seq!["update"@] + opening
        + seq![id]);
    assert(operation_args(OperationKind::Update, remote, None) =~= seq!["update"@] + opening);
    assert(operation_args(OperationKind::Remove, remote, Some(id)) =~= seq!["uninstall"@] + opening
        + seq![id]);
}

/// A fresh backend asks the remote `flathub`, knows nothing yet and has nothing
/// to save; a backend asks for the columns in which its rows are read, and for
/// its own remote.
pub proof fn backends_start_with_flathub(path: Option<Seq<char>>, backend: BackendModel)
    ensures
        BackendModel::fresh(path).remote == "flathub"@,
        BackendModel::fresh(path).cache.entries.len() == 0,
        BackendModel::fresh(path).cache.saved_at is None,
        BackendModel::fresh(path).cache_path == path,
        BackendModel::fresh(path).local_fallback.len() == 0,
        !BackendModel::fresh(path).unsaved,
        backend.remote_query() == seq![
            "remote-ls"@,
            "--app"@,
            "--columns=application,name,summary,version,branch,arch,origin"@,
            backend.remote,
        ],
{
}

/// What an operation on one application does to the cache: nothing where its
/// command failed. Otherwise an installed application is marked so and a removed
/// one is not, an updated one stays as it was, and no update is left to be
/// offered for it; its metadata and every other entry stay. The cache is to be
/// saved where it has a place.
pub proof fn operations_change_their_app_alone(
    backend: BackendModel,
    operation: OperationKind,
    app_id: Seq<char>,
    outcome: Result<CommandOutput, RunnerError>,
    i: int,
)
    requires
        ids_differ(backend.cache.entries),
        0 <= i < backend.cache.entries.len(),
    ensures
        ({
            let after = backend.operated(operation, Some(app_id), outcome);
            let was = backend.cache.entries[i];
            let now = after.cache.entries[i];
            let succeeded = outcome matches Ok(output) && output.success;
            &&& after.cache.entries.len() == backend.cache.entries.len()
            &&& after.cache.saved_at == backend.cache.saved_at
            &&& after.remote == backend.remote && after.cache_path == backend.cache_path
                && after.local_fallback == backend.local_fallback
            &&& now.metadata == was.metadata
            &&& !succeeded || was.metadata.app_id != app_id ==> now == was
            &&& succeeded && was.metadata.app_id == app_id ==> {
                &&& !now.update_available
                &&& operation == OperationKind::Install ==> now.installed
                &&& operation == OperationKind::Remove ==> !now.installed
                &&& operation == OperationKind::Update ==> now.installed == was.installed
            }
            &&& after.unsaved <==> backend.unsaved || (succeeded && backend.cache_path is Some)
        }),
{
    place_names_the_app(backend.cache.entries, app_id);
}

/// An update of everything leaves no update to be offered for an installed
/// application, and changes nothing else.
pub proof fn updating_all_leaves_no_update(
    backend: BackendModel,
    outcome: Result<CommandOutput, RunnerError>,
    i: int,
)
    requires
        0 <= i < backend.cache.entries.len(),
    ensures
        ({
            let after = backend.operated(OperationKind::Update, None, outcome);
            let was = backend.cache.entries[i];
            let now = after.cache.entries[i];
            let succeeded = outcome matches Ok(output) && output.success;
            &&& after.cache.entries.len() == backend.cache.entries.len()
            &&& after.remote == backend.remote
            &&& now.metadata == was.metadata && now.installed == was.installed
            &&& succeeded && was.installed ==> !now.update_available
            &&& !succeeded || !was.installed ==> now == was
        }),
{
}

/// What a failed command is said to have done ends with what it wrote, and is
/// only the opening where it wrote nothing.
pub proof fn failures_end_with_what_was_written(opening: Seq<char>, stderr: Seq<char>)
    ensures
        trimmed(stderr).len() == 0 ==> failure_text(opening, stderr) == opening,
        trimmed(stderr).len() > 0 ==> failure_text(opening, stderr) == opening + ": "@ + trimmed(
            stderr,
        ),
{
}

/// A catalogue that was shown is there in the next session: what a live refresh
/// leaves to be written, where the cache has a place, gives back its entries and
/// its time to the backend that loads it. It is written once.
pub proof fn catalogues_outlive_the_session(
    backend: BackendModel,
    other: BackendModel,
    output: CommandOutput,
    installed: Option<Result<CommandOutput, RunnerError>>,
    now: u64,
    later: u64,
)
    requires
        output.success,
        backend.cache_path is Some,
        forall|i: int|
            0 <= i < backend.live_apps(output, installed).len() ==> storable_app(
                #[trigger] backend.live_apps(output, installed)[i],
            ),
    ensures
        ({
            let after = backend.refreshed(Ok(output), installed, now);
            &&& after.unsaved_text(later) matches Some(body) && {
                let loaded = other.with_cache(body);
                &&& loaded.cache.entries == backend.live_apps(output, installed)
                &&& loaded.cache.saved_at == Some(now)
                &&& loaded.remote == other.remote && loaded.local_fallback == other.local_fallback
            }
            &&& after.saved().unsaved_text(later) is None
            &&& after.saved().cache == after.cache
        }),
{
    loading_undoes_saving(backend.live_apps(output, installed), now);
}

/// A text that is no cache leaves an empty one, and nothing is written where the
/// cache has not changed.
pub proof fn other_texts_leave_no_cache(backend: BackendModel, body: Seq<char>, now: u64)
    requires
        cache_of_text(body) is None,
    ensures
        backend.with_cache(body).cache.entries.len() == 0,
        backend.with_cache(body).cache.saved_at is None,
        !backend.unsaved ==> backend.unsaved_text(now) is None,
        backend.unsaved ==> backend.unsaved_text(now) is Some,
{
}

/// A cache that could not be written is told behind what the snapshot says
/// already, and changes nothing else of it.
pub proof fn cache_failures_are_noted(snapshot: SnapshotTexts, error: Seq<char>)
    ensures
        with_note(snapshot, error).apps == snapshot.apps,
        with_note(snapshot, error).state == snapshot.state,
        with_note(snapshot, error).source == snapshot.source,
        snapshot.message is None ==> with_note(snapshot, error).message == Some(
            "Catalogue loaded, but cache write failed: "@ + error,
        ),
        snapshot.message matches Some(said) ==> with_note(snapshot, error).message == Some(
            said + " "@ + ("Catalogue loaded, but cache write failed: "@ + error),
        ),
{
}

} // verus!
