//! Locating XWayland, its fixed launch, and the state of its process.
//!
//! What only the file system can tell comes in as facts; candidates for a
//! look-up and the conclusions from it are decided here.

use crate::compat::{detected_if, CapabilityState, PortalProbe, ProbeEvidence};
use crate::data_device::is_control;
use crate::paths::{absolute, inside, is_absolute, join_path};
use crate::text::{
    chars_of, concat2, concat3, copy_option, decimal, decimal_text, numbers_are_written_in_digits,
    option_view, parse_number, parsed, parsing_undoes_decimal, split, split_text, trim, trimmed,
    views, views_push,
};
use vstd::prelude::*;
use vstd::string::*;

verus! {

/// A snapshot of the process environment that matters to a native Wayland
/// session. A variable that is not Unicode counts as missing.
#[derive(Clone, Debug, Eq, PartialEq)]
pub struct HostEnvironment {
    pub path: Option<String>,
    pub xwayland_executable: Option<String>,
    pub wayland_display: Option<String>,
    pub runtime_dir: Option<String>,
    pub dbus_session_bus_address: Option<String>,
    pub data_home: Option<String>,
    pub data_dirs: Vec<String>,
}

impl Default for HostEnvironment {
    fn default() -> (environment: Self)
        ensures
            environment.path is None,
            environment.xwayland_executable is None,
            environment.wayland_display is None,
            environment.runtime_dir is None,
            environment.dbus_session_bus_address is None,
            environment.data_home is None,
            environment.data_dirs@ == Seq::<String>::empty(),
    {
        HostEnvironment {
            path: None,
            xwayland_executable: None,
            wayland_display: None,
            runtime_dir: None,
            dbus_session_bus_address: None,
            data_home: None,
            data_dirs: Vec::new(),
        }
    }
}

/// What the file system told about the candidates of an environment.
#[derive(Clone, Debug, Eq, PartialEq)]
pub struct HostFacts {
    /// The canonical path of the first candidate that is an executable file.
    pub executable: Option<String>,
    /// Whether the runtime directory exists and is a directory.
    pub runtime_dir_exists: bool,
    /// Whether one of the portal's service files exists.
    pub portal_service: bool,
    /// Whether one of the notification daemon's service files exists.
    pub notification_service: bool,
}

/// A value that may be put into a child's environment: not empty, and without
/// control characters.
pub open spec fn is_environment_value(value: Seq<char>) -> bool {
    value.len() > 0 && forall|i: int| 0 <= i < value.len() ==> !is_control(#[trigger] value[i])
}

pub fn valid_environment_value(value: &str) -> (valid: bool)
    ensures
        valid == is_environment_value(value@),
{
    let chars = chars_of(value);
    let mut i: usize = 0;
    while i < chars.len()
        invariant
            i <= chars.len(),
            chars@ == value@,
            forall|k: int| 0 <= k < i ==> !is_control(#[trigger] chars@[k]),
        decreases chars.len() - i,
    {
        let c = chars[i];
        if c <= '\u{1f}' || ('\u{7f}' <= c && c <= '\u{9f}') {
            assert(is_control(value@[i as int]));
            return false;
        }
        i += 1;
    }
    chars.len() > 0
}

/// A program name that may be looked up: not empty, with neither a separator
/// nor a control character.
pub open spec fn is_program_name(name: Seq<char>) -> bool {
    name.len() > 0 && forall|i: int|
        0 <= i < name.len() ==> (#[trigger] name[i]) != '/' && name[i] != '\\' && !is_control(name[i])
}

fn valid_program_name(name: &str) -> (valid: bool)
    ensures
        valid == is_program_name(name@),
{
    let chars = chars_of(name);
    let mut i: usize = 0;
    while i < chars.len()
        invariant
            i <= chars.len(),
            chars@ == name@,
            forall|k: int|
                0 <= k < i ==> (#[trigger] name@[k]) != '/' && name@[k] != '\\' && !is_control(
                    name@[k],
                ),
        decreases chars.len() - i,
    {
        let c = chars[i];
        if c == '/' || c == '\\' || c <= '\u{1f}' || ('\u{7f}' <= c && c <= '\u{9f}') {
            assert(name@[i as int] == c);
            return false;
        }
        i += 1;
    }
    chars.len() > 0
}

/// `name` in each of the directories that is not empty.
pub open spec fn in_directories(directories: Seq<Seq<char>>, name: Seq<char>) -> Seq<Seq<char>>
    decreases directories.len(),
{
    if directories.len() == 0 {
        Seq::empty()
    } else {
        let before = in_directories(directories.drop_last(), name);
        if directories.last().len() == 0 {
            before
        } else {
            before.push(inside(directories.last(), name))
        }
    }
}

/// Where a program may be found on a search path.
pub open spec fn on_path(name: Seq<char>, path: Option<Seq<char>>) -> Seq<Seq<char>> {
    match path {
        Some(list) if is_program_name(name) => in_directories(split(list, ':'), name),
        _ => Seq::empty(),
    }
}

/// The places on a search path where a program may be found, in order. Empty
/// entries are skipped rather than taken for the working directory.
pub fn executable_candidates(name: &str, path: &Option<String>) -> (candidates: Vec<String>)
    ensures
        views(candidates@) == on_path(name@, option_view(*path)),
{
    let mut candidates: Vec<String> = Vec::new();
    assert(views(candidates@) =~= Seq::empty());
    if !valid_program_name(name) {
        return candidates;
    }
    match path {
        None => candidates,
        Some(list) => {
            let directories = split_text(list.as_str(), ':');
            let ghost all = views(directories@);
            let mut i: usize = 0;
            while i < directories.len()
                invariant
                    i <= directories.len(),
                    all == views(directories@),
                    views(candidates@) == in_directories(all.subrange(0, i as int), name@),
                decreases directories.len() - i,
            {
                assert(all.subrange(0, i + 1).drop_last() =~= all.subrange(0, i as int));
                assert(all.subrange(0, i + 1).last() == directories@[i as int]@);
                if chars_of(directories[i].as_str()).len() > 0 {
                    let candidate = join_path(directories[i].as_str(), name);
                    proof {
                        views_push(candidates@, candidate);
                    }
                    candidates.push(candidate);
                }
                i += 1;
            }
            assert(all.subrange(0, i as int) =~= all);
            candidates
        },
    }
}

/// What is known of XWayland.
#[verifier::ext_equal]
pub struct DetectionModel {
    pub state: CapabilityState,
    pub executable: Option<Seq<char>>,
    pub wayland_display: Option<Seq<char>>,
    pub runtime_dir: Option<Seq<char>>,
    pub reason: Seq<char>,
}

/// `text`, where it meets a condition.
pub open spec fn kept_if(text: Option<Seq<char>>, condition: bool) -> Option<Seq<char>> {
    if condition {
        text
    } else {
        None
    }
}

impl HostEnvironment {
    pub open spec fn session_bus(self) -> bool {
        option_view(self.dbus_session_bus_address) matches Some(address) && address.len() > 0
    }

    /// Whether a session bus address is set.
    pub fn has_session_bus(&self) -> (yes: bool)
        ensures
            yes == self.session_bus(),
    {
        match &self.dbus_session_bus_address {
            Some(address) => chars_of(address.as_str()).len() > 0,
            None => false,
        }
    }

    /// The evidence of portals in the environment.
    pub open spec fn portal_probe(self, facts: HostFacts) -> PortalProbe {
        PortalProbe {
            session_bus: detected_if(self.session_bus()),
            desktop: detected_if(facts.portal_service),
            clipboard: ProbeEvidence::NotDetected,
            screencast: ProbeEvidence::NotDetected,
            notifications: detected_if(facts.notification_service),
        }
    }

    /// Where XWayland may be: at its override, else on the search path.
    pub open spec fn xwayland_places(self) -> Seq<Seq<char>> {
        let found = on_path("Xwayland"@, option_view(self.path));
        match option_view(self.xwayland_executable) {
            Some(chosen) => seq![chosen] + found,
            None => found,
        }
    }

    /// The places to look for XWayland, in order.
    pub fn xwayland_candidates(&self) -> (candidates: Vec<String>)
        ensures
            views(candidates@) == self.xwayland_places(),
    {
        let found = executable_candidates("Xwayland", &self.path);
        match &self.xwayland_executable {
            None => found,
            Some(chosen) => {
                let mut candidates: Vec<String> = Vec::new();
                candidates.push(chosen.clone());
                let mut i: usize = 0;
                assert(views(candidates@) =~= seq![chosen@] + views(found@).subrange(0, 0));
                while i < found.len()
                    invariant
                        i <= found.len(),
                        views(candidates@) == seq![chosen@] + views(found@).subrange(0, i as int),
                    decreases found.len() - i,
                {
                    let next = found[i].clone();
                    proof {
                        views_push(candidates@, next);
                        assert((seq![chosen@] + views(found@).subrange(0, i as int)).push(next@)
                            =~= seq![chosen@] + views(found@).subrange(0, i + 1));
                    }
                    candidates.push(next);
                    i += 1;
                }
                assert(views(found@).subrange(0, i as int) =~= views(found@));
                candidates
            },
        }
    }

    /// The directories that hold shared data, the user's first.
    pub open spec fn data_roots(self) -> Seq<Seq<char>> {
        match option_view(self.data_home) {
            Some(home) => seq![home] + views(self.data_dirs@),
            None => views(self.data_dirs@),
        }
    }

    pub open spec fn service_places(self, file_name: Seq<char>) -> Seq<Seq<char>> {
        Seq::new(
            self.data_roots().len(),
            |i: int| inside(inside(self.data_roots()[i], "dbus-1/services"@), file_name),
        )
    }

    /// The places where a D-Bus service file may be, in order.
    pub fn service_candidates(&self, file_name: &str) -> (candidates: Vec<String>)
        ensures
            views(candidates@) == self.service_places(file_name@),
    {
        let mut candidates: Vec<String> = Vec::new();
        let mut offset: usize = 0;
        match &self.data_home {
            Some(home) => {
                let directory = join_path(home.as_str(), "dbus-1/services");
                candidates.push(join_path(directory.as_str(), file_name));
                offset = 1;
            },
            None => {},
        }
        let ghost roots = self.data_roots();
        let mut i: usize = 0;
        while i < self.data_dirs.len()
            invariant
                i <= self.data_dirs.len(),
                offset <= 1,
                candidates.len() == i + offset,
                roots == self.data_roots(),
                roots.len() == self.data_dirs.len() + offset,
                forall|k: int|
                    0 <= k < self.data_dirs.len() ==> roots[k + offset] == (
                    #[trigger] self.data_dirs@[k])@,
                forall|k: int|
                    0 <= k < candidates.len() ==> (#[trigger] candidates@[k])@ == inside(
                        inside(roots[k], "dbus-1/services"@),
                        file_name@,
                    ),
            decreases self.data_dirs.len() - i,
        {
            let directory = join_path(self.data_dirs[i].as_str(), "dbus-1/services");
            candidates.push(join_path(directory.as_str(), file_name));
            i += 1;
        }
        assert(views(candidates@) =~= self.service_places(file_name@));
        candidates
    }

    /// What the environment and the facts say of XWayland.
    pub open spec fn xwayland(self, facts: HostFacts) -> DetectionModel {
        let executable = option_view(facts.executable);
        let display = match option_view(self.wayland_display) {
            Some(name) => kept_if(Some(name), is_environment_value(name)),
            None => None,
        };
        let runtime = match option_view(self.runtime_dir) {
            Some(path) => kept_if(Some(path), is_absolute(path) && facts.runtime_dir_exists),
            None => None,
        };
        let (state, reason) = match (executable, display, runtime) {
            (None, _, _) => (
                CapabilityState::Unavailable,
                "Xwayland was not found in PATH or at ROUCH_XWAYLAND; native Wayland remains the fallback."@,
            ),
            (Some(_), None, _) => (
                CapabilityState::Degraded,
                "Xwayland was found, but WAYLAND_DISPLAY is missing or invalid; native Wayland remains the fallback."@,
            ),
            (Some(_), Some(_), None) => (
                CapabilityState::Degraded,
                "Xwayland was found, but XDG_RUNTIME_DIR is missing or is not a directory; native Wayland remains the fallback."@,
            ),
            (Some(path), Some(name), Some(directory)) => (
                CapabilityState::Available,
                "Xwayland can be launched at "@ + path + " against WAYLAND_DISPLAY="@ + name
                    + " and XDG_RUNTIME_DIR="@ + directory
                    + "; compositor bridge still requires confirmation."@,
            ),
        };
        DetectionModel { state, executable, wayland_display: display, runtime_dir: runtime, reason }
    }
}

/// The result of locating XWayland without launching it.
#[derive(Clone, Debug, Eq, PartialEq)]
pub struct XWaylandDetection {
    pub state: CapabilityState,
    pub executable: Option<String>,
    pub wayland_display: Option<String>,
    pub runtime_dir: Option<String>,
    pub reason: String,
}

impl View for XWaylandDetection {
    type V = DetectionModel;

    open spec fn view(&self) -> DetectionModel {
        DetectionModel {
            state: self.state,
            executable: option_view(self.executable),
            wayland_display: option_view(self.wayland_display),
            runtime_dir: option_view(self.runtime_dir),
            reason: self.reason@,
        }
    }
}

impl DetectionModel {
    pub open spec fn launchable(self) -> bool {
        self.state == CapabilityState::Available && self.executable is Some && self.wayland_display
            is Some && self.runtime_dir is Some
    }
}

impl XWaylandDetection {
    pub fn can_spawn(&self) -> (yes: bool)
        ensures
            yes == self@.launchable(),
    {
        self.state == CapabilityState::Available && self.executable.is_some()
            && self.wayland_display.is_some() && self.runtime_dir.is_some()
    }
}

/// XWayland process adapter. It does not claim that an X11 client can map
/// until the compositor confirms its bridge.
#[derive(Clone, Debug, Eq, PartialEq)]
pub struct XWaylandAdapter {
    pub detection: XWaylandDetection,
}

impl XWaylandAdapter {
    pub fn from_environment(environment: &HostEnvironment, facts: &HostFacts) -> (adapter: Self)
        ensures
            adapter.detection@ == environment.xwayland(*facts),
    {
        let executable = copy_option(&facts.executable);
        let wayland_display = match &environment.wayland_display {
            Some(display) => if valid_environment_value(display.as_str()) {
                Some(display.clone())
            } else {
                None
            },
            None => None,
        };
        let runtime_dir = match &environment.runtime_dir {
            Some(path) => if absolute(path.as_str()) && facts.runtime_dir_exists {
                Some(path.clone())
            } else {
                None
            },
            None => None,
        };
        let (state, reason) = match (&executable, &wayland_display, &runtime_dir) {
            (None, _, _) => (
                CapabilityState::Unavailable,
                "Xwayland was not found in PATH or at ROUCH_XWAYLAND; native Wayland remains the fallback.".to_owned(),
            ),
            (Some(_), None, _) => (
                CapabilityState::Degraded,
                "Xwayland was found, but WAYLAND_DISPLAY is missing or invalid; native Wayland remains the fallback.".to_owned(),
            ),
            (Some(_), Some(_), None) => (
                CapabilityState::Degraded,
                "Xwayland was found, but XDG_RUNTIME_DIR is missing or is not a directory; native Wayland remains the fallback.".to_owned(),
            ),
            (Some(path), Some(display), Some(runtime)) => {
                let mut text = concat2("Xwayland can be launched at ", path.as_str());
                text.append(" against WAYLAND_DISPLAY=");
                text.append(display.as_str());
                text.append(" and XDG_RUNTIME_DIR=");
                text.append(runtime.as_str());
                text.append("; compositor bridge still requires confirmation.");
                (CapabilityState::Available, text)
            },
        };
        XWaylandAdapter {
            detection: XWaylandDetection {
                state,
                executable,
                wayland_display,
                runtime_dir,
                reason,
            },
        }
    }

    pub fn detection(&self) -> (detection: &XWaylandDetection)
        ensures
            detection@ == self.detection@,
    {
        &self.detection
    }

    /// The launch that the detection allows. The arguments tell whether the
    /// executable and the runtime directory are still there.
    pub fn launch_config(&self, executable_exists: bool, runtime_dir_exists: bool) -> (result: Result<
        XWaylandLaunchConfig,
        XWaylandError,
    >)
        ensures
            ({
                let found = self.detection@;
                if !found.launchable() {
                    result matches Err(XWaylandError::NotReady(reason)) && reason@ == found.reason
                } else {
                    launches(
                        result,
                        found.executable->Some_0,
                        found.wayland_display->Some_0,
                        found.runtime_dir->Some_0,
                        executable_exists,
                        runtime_dir_exists,
                    )
                }
            }),
    {
        if self.detection.state == CapabilityState::Available {
            match (
                &self.detection.executable,
                &self.detection.wayland_display,
                &self.detection.runtime_dir,
            ) {
                (Some(executable), Some(display), Some(runtime)) => {
                    return XWaylandLaunchConfig::new(
                        executable.clone(),
                        display.clone(),
                        runtime.clone(),
                        executable_exists,
                        runtime_dir_exists,
                    );
                },
                _ => {},
            }
        }
        Err(XWaylandError::NotReady(self.detection.reason.clone()))
    }
}

/// The fixed XWayland launch. Neither arguments nor environment are open to a
/// caller, so nothing is interpreted by a shell.
#[derive(Clone, Debug, Eq, PartialEq)]
pub struct XWaylandLaunchConfig {
    pub executable: String,
    pub wayland_display: String,
    pub runtime_dir: String,
}

/// The fault of a launch, if it has one.
pub open spec fn launch_fault(
    executable: Seq<char>,
    display: Seq<char>,
    runtime: Seq<char>,
    executable_exists: bool,
    runtime_dir_exists: bool,
) -> Option<Seq<char>> {
    if !is_absolute(executable) || !executable_exists {
        Some("XWayland executable must be an existing absolute executable file"@)
    } else if !is_environment_value(display) {
        Some("WAYLAND_DISPLAY must be a non-empty value without control characters"@)
    } else if !is_absolute(runtime) || !runtime_dir_exists {
        Some("XDG_RUNTIME_DIR must be an existing absolute directory"@)
    } else {
        None
    }
}

/// Whether `result` is the launch of these values, or tells their fault.
pub open spec fn launches(
    result: Result<XWaylandLaunchConfig, XWaylandError>,
    executable: Seq<char>,
    display: Seq<char>,
    runtime: Seq<char>,
    executable_exists: bool,
    runtime_dir_exists: bool,
) -> bool {
    let fault = launch_fault(executable, display, runtime, executable_exists, runtime_dir_exists);
    match result {
        Ok(config) => fault is None && config.executable@ == executable
            && config.wayland_display@ == display && config.runtime_dir@ == runtime,
        Err(XWaylandError::InvalidConfig(reason)) => fault == Some(reason@),
        Err(_) => false,
    }
}

impl XWaylandLaunchConfig {
    pub fn new(
        executable: String,
        wayland_display: String,
        runtime_dir: String,
        executable_exists: bool,
        runtime_dir_exists: bool,
    ) -> (result: Result<Self, XWaylandError>)
        ensures
            launches(
                result,
                executable@,
                wayland_display@,
                runtime_dir@,
                executable_exists,
                runtime_dir_exists,
            ),
    {
        if !absolute(executable.as_str()) || !executable_exists {
            return Err(
                XWaylandError::InvalidConfig(
                    "XWayland executable must be an existing absolute executable file",
                ),
            );
        }
        if !valid_environment_value(wayland_display.as_str()) {
            return Err(
                XWaylandError::InvalidConfig(
                    "WAYLAND_DISPLAY must be a non-empty value without control characters",
                ),
            );
        }
        if !absolute(runtime_dir.as_str()) || !runtime_dir_exists {
            return Err(
                XWaylandError::InvalidConfig(
                    "XDG_RUNTIME_DIR must be an existing absolute directory",
                ),
            );
        }
        Ok(XWaylandLaunchConfig { executable, wayland_display, runtime_dir })
    }

    /// The rootless launch. `-displayfd 1` sends the allocated display number
    /// to a pipe that the supervisor reads.
    pub fn command_spec(&self) -> (command: XWaylandCommandSpec)
        ensures
            command.program@ == self.executable@,
            views(command.args@) == seq!["-rootless"@, "-terminate"@, "-displayfd"@, "1"@],
            pair_views(command.environment@) == seq![
                ("WAYLAND_DISPLAY"@, self.wayland_display@),
                ("XDG_RUNTIME_DIR"@, self.runtime_dir@),
                ("XDG_SESSION_TYPE"@, "wayland"@),
            ],
    {
        let mut args: Vec<String> = Vec::new();
        args.push("-rootless".to_owned());
        args.push("-terminate".to_owned());
        args.push("-displayfd".to_owned());
        args.push("1".to_owned());
        let mut environment: Vec<(String, String)> = Vec::new();
        environment.push(("WAYLAND_DISPLAY".to_owned(), self.wayland_display.clone()));
        environment.push(("XDG_RUNTIME_DIR".to_owned(), self.runtime_dir.clone()));
        environment.push(("XDG_SESSION_TYPE".to_owned(), "wayland".to_owned()));
        assert(views(args@) =~= seq!["-rootless"@, "-terminate"@, "-displayfd"@, "1"@]);
        assert(pair_views(environment@) =~= seq![
            ("WAYLAND_DISPLAY"@, self.wayland_display@),
            ("XDG_RUNTIME_DIR"@, self.runtime_dir@),
            ("XDG_SESSION_TYPE"@, "wayland"@),
        ]);
        XWaylandCommandSpec { program: self.executable.clone(), args, environment }
    }
}

pub open spec fn pair_views(list: Seq<(String, String)>) -> Seq<(Seq<char>, Seq<char>)> {
    Seq::new(list.len(), |i: int| (list[i].0@, list[i].1@))
}

/// The fixed process boundary.
#[derive(Clone, Debug, Eq, PartialEq)]
pub struct XWaylandCommandSpec {
    pub program: String,
    pub args: Vec<String>,
    /// These values override the inherited environment.
    pub environment: Vec<(String, String)>,
}

/// A process exit.
#[derive(Clone, Copy, Debug, Eq, PartialEq, Structural)]
pub struct XWaylandExit {
    pub code: Option<i32>,
    pub success: bool,
}

/// Observable lifecycle of the supervised XWayland child.
#[derive(Clone, Copy, Debug, Eq, PartialEq, Structural)]
pub enum XWaylandLifecycle {
    Running,
    Exited(XWaylandExit),
}

/// What to do next while the display number is awaited.
#[derive(Clone, Debug, Eq, PartialEq)]
pub enum DisplayWait {
    /// The display is known under this name.
    Ready(String),
    /// The child has ended or time is up.
    GiveUp,
    /// Look again after four milliseconds.
    Sleep,
}

/// The number that a line of the display pipe announces.
pub open spec fn announced(line: Seq<char>) -> Option<nat> {
    parsed(trimmed(line), 65_535)
}

/// The state of a supervised XWayland process: the first display number that
/// it announced, and how it ended.
#[derive(Clone, Copy, Debug, Eq, PartialEq, Structural)]
pub struct XWaylandState {
    pub display_number: Option<u32>,
    pub exit: Option<XWaylandExit>,
}

impl XWaylandState {
    pub fn new() -> (state: Self)
        ensures
            state.display_number is None,
            state.exit is None,
    {
        XWaylandState { display_number: None, exit: None }
    }

    /// The display once a line was read: the first that was announced stands.
    pub open spec fn display_after(&self, line: Seq<char>) -> Option<u32> {
        if self.display_number is Some {
            self.display_number
        } else {
            match announced(line) {
                Some(number) => Some(number as u32),
                None => None,
            }
        }
    }

    /// Takes one line of the display pipe. The first number of at most 65535
    /// is the display; every other line is ignored.
    pub fn display_line(&mut self, line: &str)
        ensures
            final(self).exit == old(self).exit,
            final(self).display_number == old(self).display_after(line@),
    {
        match parse_number(trim(line).as_str(), 65_535) {
            Some(number) => {
                if self.display_number.is_none() {
                    self.display_number = Some(number as u32);
                }
            },
            None => {},
        }
    }

    /// The name of the display, once it is known.
    pub fn display_name(&self) -> (name: Option<String>)
        ensures
            option_view(name) == self.spec_display_name(),
    {
        match self.display_number {
            Some(number) => Some(concat2(":", decimal_text(number as u64).as_str())),
            None => None,
        }
    }

    pub open spec fn spec_display_name(&self) -> Option<Seq<char>> {
        match self.display_number {
            Some(number) => Some(":"@ + decimal(number as nat)),
            None => None,
        }
    }

    /// The exit that stands once another is recorded: the first.
    pub open spec fn exit_after(&self, exit: XWaylandExit) -> XWaylandExit {
        match self.exit {
            Some(first) => first,
            None => exit,
        }
    }

    /// Records that the child has ended; the first exit stands.
    pub fn exited(&mut self, exit: XWaylandExit) -> (recorded: XWaylandExit)
        ensures
            final(self).display_number == old(self).display_number,
            final(self).exit == Some(recorded),
            recorded == old(self).exit_after(exit),
    {
        match self.exit {
            Some(first) => first,
            None => {
                self.exit = Some(exit);
                exit
            },
        }
    }

    pub fn lifecycle_snapshot(&self) -> (lifecycle: XWaylandLifecycle)
        ensures
            lifecycle == (match self.exit {
                Some(exit) => XWaylandLifecycle::Exited(exit),
                None => XWaylandLifecycle::Running,
            }),
    {
        match self.exit {
            Some(exit) => XWaylandLifecycle::Exited(exit),
            None => XWaylandLifecycle::Running,
        }
    }

    /// Whether the wait for the display ends without one.
    pub open spec fn gives_up(&self, deadline_passed: bool) -> bool {
        self.display_number is None && (self.exit is Some || deadline_passed)
    }

    /// Decides how the wait for the display goes on.
    pub fn wait_step(&self, deadline_passed: bool) -> (next: DisplayWait)
        ensures
            match self.spec_display_name() {
                Some(name) => next matches DisplayWait::Ready(shown) && shown@ == name,
                None => if self.gives_up(deadline_passed) {
                    next is GiveUp
                } else {
                    next is Sleep
                },
            },
    {
        match self.display_name() {
            Some(name) => DisplayWait::Ready(name),
            None => if self.exit.is_some() || deadline_passed {
                DisplayWait::GiveUp
            } else {
                DisplayWait::Sleep
            },
        }
    }
}

/// Why XWayland could not be started or supervised. What the operating system
/// reported is kept as text.
#[derive(Clone, Debug, Eq, PartialEq)]
pub enum XWaylandError {
    NotReady(String),
    InvalidConfig(&'static str),
    Spawn(String),
    MissingDisplayPipe,
    Reader(String),
    Lifecycle(String),
    Shutdown(String),
}

impl XWaylandError {
    pub open spec fn text(&self) -> Seq<char> {
        match *self {
            XWaylandError::NotReady(reason) => "XWayland is not ready: "@ + reason@,
            XWaylandError::InvalidConfig(reason) => "invalid XWayland configuration: "@ + reason@,
            XWaylandError::Spawn(error) => "could not spawn XWayland: "@ + error@,
            XWaylandError::MissingDisplayPipe => "XWayland did not expose its display pipe"@,
            XWaylandError::Reader(error) => "could not supervise XWayland display pipe: "@ + error@,
            XWaylandError::Lifecycle(error) => "could not inspect XWayland lifecycle: "@ + error@,
            XWaylandError::Shutdown(error) => "could not shut down XWayland: "@ + error@,
        }
    }

    pub fn message(&self) -> (message: String)
        ensures
            message@ == self.text(),
    {
        match self {
            XWaylandError::NotReady(reason) => concat2("XWayland is not ready: ", reason.as_str()),
            XWaylandError::InvalidConfig(reason) => concat2(
                "invalid XWayland configuration: ",
                reason,
            ),
            XWaylandError::Spawn(error) => concat2("could not spawn XWayland: ", error.as_str()),
            XWaylandError::MissingDisplayPipe => {
                "XWayland did not expose its display pipe".to_owned()
            },
            XWaylandError::Reader(error) => concat2(
                "could not supervise XWayland display pipe: ",
                error.as_str(),
            ),
            XWaylandError::Lifecycle(error) => concat2(
                "could not inspect XWayland lifecycle: ",
                error.as_str(),
            ),
            XWaylandError::Shutdown(error) => concat2(
                "could not shut down XWayland: ",
                error.as_str(),
            ),
        }
    }

    pub open spec fn spec_fallback(&self) -> Seq<char> {
        match *self {
            XWaylandError::NotReady(_) | XWaylandError::InvalidConfig(_) => self.text(),
            _ => "XWayland launch failed: "@ + self.text() + "; native Wayland remains active."@,
        }
    }

    /// Why native Wayland stays the only path: the launch was not possible, or
    /// it failed.
    pub fn fallback_reason(&self) -> (reason: String)
        ensures
            reason@ == self.spec_fallback(),
    {
        match self {
            XWaylandError::NotReady(_) | XWaylandError::InvalidConfig(_) => self.message(),
            _ => concat3(
                "XWayland launch failed: ",
                self.message().as_str(),
                "; native Wayland remains active.",
            ),
        }
    }
}

/// What can be launched has been found, has a display to connect to and a
/// runtime directory: an adapter's launch fails only where the file system
/// changed since.
pub proof fn detected_launches_are_valid(environment: HostEnvironment, facts: HostFacts)
    requires
        environment.xwayland(facts).launchable(),
        option_view(facts.executable) matches Some(path) ==> is_absolute(path),
    ensures
        launch_fault(
            environment.xwayland(facts).executable->Some_0,
            environment.xwayland(facts).wayland_display->Some_0,
            environment.xwayland(facts).runtime_dir->Some_0,
            true,
            true,
        ) is None,
{
}

/// XWayland is available exactly where its executable was found, the display is
/// named without control characters, and the runtime directory is absolute and
/// there; without an executable it is not available, and degraded otherwise.
pub proof fn xwayland_needs_all_three(environment: HostEnvironment, facts: HostFacts)
    ensures
        ({
            let found = environment.xwayland(facts);
            let display = environment.wayland_display matches Some(name) && name@.len() > 0
                && forall|i: int| 0 <= i < name@.len() ==> !is_control(#[trigger] name@[i]);
            let runtime = environment.runtime_dir matches Some(path) && path@.len() > 0 && path@[0]
                == '/' && facts.runtime_dir_exists;
            &&& found.state == CapabilityState::Unavailable <==> facts.executable is None
            &&& found.state == CapabilityState::Available <==> facts.executable is Some && display
                && runtime
            &&& found.executable == option_view(facts.executable)
            &&& found.wayland_display == (if display {
                option_view(environment.wayland_display)
            } else {
                None
            })
            &&& found.runtime_dir == (if runtime {
                option_view(environment.runtime_dir)
            } else {
                None
            })
            &&& found.launchable() <==> found.state == CapabilityState::Available
        }),
{
}

/// Control characters are those of ASCII and those that follow it.
pub proof fn control_characters_are_these(c: char)
    ensures
        is_control(c) <==> (c as u32) < 0x20 || 0x7f <= c as u32 <= 0x9f,
{
}

/// A launch is refused exactly where the executable is not absolute or gone, the
/// display is empty or holds a control character, or the runtime directory is not
/// absolute or gone.
pub proof fn launches_are_refused_for_these(
    executable: Seq<char>,
    display: Seq<char>,
    runtime: Seq<char>,
    executable_exists: bool,
    runtime_dir_exists: bool,
)
    ensures
        launch_fault(executable, display, runtime, executable_exists, runtime_dir_exists) is None
            <==> {
            &&& executable.len() > 0 && executable[0] == '/' && executable_exists
            &&& display.len() > 0 && forall|i: int|
                0 <= i < display.len() ==> !is_control(#[trigger] display[i])
            &&& runtime.len() > 0 && runtime[0] == '/' && runtime_dir_exists
        },
{
}

proof fn directories_are_searched(directories: Seq<Seq<char>>, name: Seq<char>, place: Seq<char>)
    ensures
        in_directories(directories, name).contains(place) <==> exists|i: int|
            0 <= i < directories.len() && (#[trigger] directories[i]).len() > 0 && place == inside(
                directories[i],
                name,
            ),
    decreases directories.len(),
{
    let all = in_directories(directories, name);
    if directories.len() > 0 {
        let rest = directories.drop_last();
        let before = in_directories(rest, name);
        directories_are_searched(rest, name, place);
        assert(directories.last() == directories[directories.len() - 1]);
        if all.contains(place) {
            let k = choose|k: int| 0 <= k < all.len() && all[k] == place;
            if k < before.len() {
                assert(before[k] == place);
                let i = choose|i: int|
                    0 <= i < rest.len() && (#[trigger] rest[i]).len() > 0 && place == inside(
                        rest[i],
                        name,
                    );
                assert(directories[i] == rest[i]);
            }
        }
        if exists|i: int|
            0 <= i < directories.len() && (#[trigger] directories[i]).len() > 0 && place == inside(
                directories[i],
                name,
            ) {
            let i = choose|i: int|
                0 <= i < directories.len() && (#[trigger] directories[i]).len() > 0 && place
                    == inside(directories[i], name);
            if i < rest.len() {
                assert(rest[i] == directories[i]);
                let k = choose|k: int| 0 <= k < before.len() && before[k] == place;
                assert(all[k] == place);
            } else {
                assert(all[all.len() - 1] == place);
            }
        }
    }
}

/// A program is looked for in every directory of the search path that is not
/// empty, and nowhere without a path. A name with a slash, a backslash or a
/// control character is not looked for.
pub proof fn programs_are_looked_for_on_the_path(
    name: Seq<char>,
    path: Seq<char>,
    place: Seq<char>,
)
    ensures
        on_path(name, None).len() == 0,
        name.len() == 0 || name.contains('/') || name.contains('\\') ==> on_path(
            name,
            Some(path),
        ).len() == 0,
        is_program_name(name) ==> (on_path(name, Some(path)).contains(place) <==> exists|i: int|
            0 <= i < split(path, ':').len() && (#[trigger] split(path, ':')[i]).len() > 0 && place
                == inside(split(path, ':')[i], name)),
{
    directories_are_searched(split(path, ':'), name, place);
}

/// The executable that the user names is tried first, and then the places of the
/// search path in their order.
pub proof fn the_named_executable_comes_first(environment: HostEnvironment, i: int)
    ensures
        environment.xwayland_executable matches Some(chosen) ==> {
            &&& environment.xwayland_places()[0] == chosen@
            &&& 0 <= i < on_path("Xwayland"@, option_view(environment.path)).len()
                ==> environment.xwayland_places()[i + 1] == on_path(
                "Xwayland"@,
                option_view(environment.path),
            )[i]
        },
        environment.xwayland_executable is None ==> environment.xwayland_places() == on_path(
            "Xwayland"@,
            option_view(environment.path),
        ),
        environment.data_home matches Some(home) ==> environment.data_roots()[0] == home@,
        environment.session_bus() <==> (environment.dbus_session_bus_address matches Some(address)
            && address@.len() > 0),
{
}

/// The display that XWayland announces is the number on its line, up to 65535,
/// whatever blanks surround it; its name is that number behind a colon.
pub proof fn displays_are_announced_by_number(number: u32, state: XWaylandState)
    ensures
        number <= 65_535 ==> announced(decimal(number as nat)) == Some(number as nat),
        number > 65_535 ==> announced(decimal(number as nat)) is None,
        state.display_number == Some(number) ==> state.spec_display_name() == Some(
            seq![':'] + decimal(number as nat),
        ),
        state.display_number is None ==> state.spec_display_name() is None,
{
    reveal_strlit(":");
    assert(":"@ =~= seq![':']);
    numbers_are_written_in_digits(number as nat, '+');
    parsing_undoes_decimal(number as nat, u32::MAX as nat);
    if number <= 65_535 {
        parsing_undoes_decimal(number as nat, 65_535);
    }
}

/// The first number that is announced is the display, and no later line changes
/// it; a line that announces none leaves the wait as it was.
pub proof fn the_first_display_stands(state: XWaylandState, line: Seq<char>, number: u32)
    ensures
        state.display_number matches Some(first) ==> state.display_after(line) == Some(first),
        state.display_number is None && number <= 65_535 ==> state.display_after(
            decimal(number as nat),
        ) == Some(number),
        announced(line) is None ==> state.display_after(line) == state.display_number,
{
    displays_are_announced_by_number(number, state);
}

/// The first exit stands, whatever is recorded after it. A wait is given up where
/// there is no display, and either the child has ended or the time is up.
pub proof fn the_first_exit_stands(state: XWaylandState, exit: XWaylandExit, deadline: bool)
    ensures
        state.exit matches Some(first) ==> state.exit_after(exit) == first,
        state.exit is None ==> state.exit_after(exit) == exit,
        state.display_number is Some ==> !state.gives_up(deadline),
        state.display_number is None && state.exit is Some ==> state.gives_up(deadline),
        state.display_number is None ==> state.gives_up(true),
        state.exit is None ==> !state.gives_up(false),
{
}

} // verus!
