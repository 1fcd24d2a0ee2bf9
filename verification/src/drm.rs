//! The native session: its error and report texts, the state machine that
//! keeps its scanout alive, and the frame timer.
//!
//! Device calls are made outside; each step says which call comes next, and
//! the outcome of the call decides the step after it.

use crate::native::{NativeFramePipeline, NativeOutputConfig};
use crate::session::{is_vt, validate_vt, vt_message, SessionEnvironment, SessionOptions};
use crate::text::{concat2, concat3, debug_quoted, decimal, decimal_text, option_view, quoted};
use crate::paths::{absolute, is_absolute};
use vstd::prelude::*;
use vstd::string::*;

verus! {

/// What part of the native session failed.
#[derive(Debug, Clone, Copy, PartialEq, Eq, Structural)]
pub enum NativeDrmErrorKind {
    Seat,
    Device,
    Udev,
    Drm,
    EventLoop,
    NoDevice,
    NoOutput,
    NotReady,
}

impl NativeDrmErrorKind {
    pub open spec fn spec_text(self) -> Seq<char> {
        match self {
            NativeDrmErrorKind::Seat => "seat acquisition failed"@,
            NativeDrmErrorKind::Device => "DRM device failed"@,
            NativeDrmErrorKind::Udev => "udev monitor failed"@,
            NativeDrmErrorKind::Drm => "DRM probe failed"@,
            NativeDrmErrorKind::EventLoop => "native event source failed"@,
            NativeDrmErrorKind::NoDevice => "no usable DRM device"@,
            NativeDrmErrorKind::NoOutput => "no connected DRM output"@,
            NativeDrmErrorKind::NotReady => "native scanout not ready"@,
        }
    }

    pub fn text(self) -> (text: &'static str)
        ensures
            text@ == self.spec_text(),
    {
        match self {
            NativeDrmErrorKind::Seat => "seat acquisition failed",
            NativeDrmErrorKind::Device => "DRM device failed",
            NativeDrmErrorKind::Udev => "udev monitor failed",
            NativeDrmErrorKind::Drm => "DRM probe failed",
            NativeDrmErrorKind::EventLoop => "native event source failed",
            NativeDrmErrorKind::NoDevice => "no usable DRM device",
            NativeDrmErrorKind::NoOutput => "no connected DRM output",
            NativeDrmErrorKind::NotReady => "native scanout not ready",
        }
    }
}

/// A failure of the native session, with a printable reason.
#[derive(Debug, Clone)]
pub struct NativeDrmError {
    pub kind: NativeDrmErrorKind,
    pub detail: String,
}

#[verifier::ext_equal]
pub struct ErrorModel {
    pub kind: NativeDrmErrorKind,
    pub detail: Seq<char>,
}

impl View for NativeDrmError {
    type V = ErrorModel;

    open spec fn view(&self) -> ErrorModel {
        ErrorModel { kind: self.kind, detail: self.detail@ }
    }
}

impl ErrorModel {
    pub open spec fn text(self) -> Seq<char> {
        self.kind.spec_text() + ": "@ + self.detail
    }

    /// Whether a seat or VT hand-off can still resolve this failure.
    pub open spec fn transient(self) -> bool {
        self.kind == NativeDrmErrorKind::Seat || self.kind == NativeDrmErrorKind::Drm || self.kind
            == NativeDrmErrorKind::NoOutput
    }
}

pub open spec fn error_model(kind: NativeDrmErrorKind, detail: Seq<char>) -> ErrorModel {
    ErrorModel { kind, detail }
}

impl NativeDrmError {
    pub fn new(kind: NativeDrmErrorKind, detail: String) -> (error: Self)
        ensures
            error@ == error_model(kind, detail@),
    {
        NativeDrmError { kind, detail }
    }

    /// Whether a seat or VT hand-off can still resolve this failure.
    ///
    /// A display manager releases the previous session's seat asynchronously,
    /// so the first probe after a login can find an inactive seat or a
    /// connector that has not finished coming back.
    pub fn is_transient(&self) -> (yes: bool)
        ensures
            yes == self@.transient(),
    {
        matches!(
            self.kind,
            NativeDrmErrorKind::Seat | NativeDrmErrorKind::Drm | NativeDrmErrorKind::NoOutput
        )
    }

    pub fn message(&self) -> (message: String)
        ensures
            message@ == self@.text(),
    {
        concat3(self.kind.text(), ": ", self.detail.as_str())
    }
}

/// A mode reported by a physical connector.
#[derive(Debug, Clone, PartialEq, Eq)]
pub struct NativeMode {
    pub name: String,
    pub width: u16,
    pub height: u16,
    pub refresh_millihertz: u32,
}

/// A connected DRM connector and its advertised modes.
#[derive(Debug, Clone, PartialEq, Eq)]
pub struct NativeOutput {
    pub name: String,
    pub modes: Vec<NativeMode>,
}

/// Lifecycle state of the session after a seat or udev event.
#[derive(Debug, Clone, Copy, PartialEq, Eq, Structural)]
pub enum NativeDrmStatus {
    Active,
    Paused,
    Recovering,
    NoOutputs,
    Failed,
}

impl NativeDrmStatus {
    pub open spec fn spec_label(self) -> Seq<char> {
        match self {
            NativeDrmStatus::Active => "active"@,
            NativeDrmStatus::Paused => "paused"@,
            NativeDrmStatus::Recovering => "recovering"@,
            NativeDrmStatus::NoOutputs => "no-outputs"@,
            NativeDrmStatus::Failed => "failed"@,
        }
    }

    pub fn label(self) -> (label: &'static str)
        ensures
            label@ == self.spec_label(),
    {
        match self {
            NativeDrmStatus::Active => "active",
            NativeDrmStatus::Paused => "paused",
            NativeDrmStatus::Recovering => "recovering",
            NativeDrmStatus::NoOutputs => "no-outputs",
            NativeDrmStatus::Failed => "failed",
        }
    }
}

/// A cheap diagnostic snapshot.
#[derive(Debug, Clone, PartialEq, Eq)]
pub struct NativeDrmReport {
    pub seat: String,
    pub device: String,
    pub atomic: bool,
    pub status: NativeDrmStatus,
    pub outputs: Vec<NativeOutput>,
    pub hotplug_generation: u64,
    pub last_error: Option<String>,
}

/// How many modes the outputs have in all.
pub open spec fn mode_count(outputs: Seq<NativeOutput>) -> nat
    decreases outputs.len(),
{
    if outputs.len() == 0 {
        0
    } else {
        mode_count(outputs.drop_last()) + outputs.last().modes@.len()
    }
}

/// Whether an output has a mode: a connected connector without one cannot be
/// used.
pub open spec fn has_mode(outputs: Seq<NativeOutput>) -> bool {
    exists|i: int| 0 <= i < outputs.len() && (#[trigger] outputs[i]).modes.len() > 0
}

pub open spec fn bool_text(b: bool) -> Seq<char> {
    if b {
        "true"@
    } else {
        "false"@
    }
}

impl NativeDrmReport {
    pub open spec fn spec_summary(&self) -> Seq<char> {
        "seat="@ + self.seat@ + ", device="@ + self.device@ + ", atomic="@ + bool_text(self.atomic)
            + ", status="@ + self.status.spec_label() + ", outputs="@ + decimal(
            self.outputs.len() as nat,
        ) + ", modes="@ + decimal(mode_count(self.outputs@)) + ", hotplug_generation="@ + decimal(
            self.hotplug_generation as nat,
        )
    }

    /// One line for a log. The outputs have fewer modes than a machine word
    /// counts.
    pub fn summary(&self) -> (text: String)
        requires
            mode_count(self.outputs@) <= u64::MAX,
        ensures
            text@ == self.spec_summary(),
    {
        let mut modes: u64 = 0;
        let mut i: usize = 0;
        while i < self.outputs.len()
            invariant
                i <= self.outputs.len(),
                modes == mode_count(self.outputs@.subrange(0, i as int)),
                mode_count(self.outputs@) <= u64::MAX,
            decreases self.outputs.len() - i,
        {
            proof {
                assert(self.outputs@.subrange(0, i + 1).drop_last() =~= self.outputs@.subrange(
                    0,
                    i as int,
                ));
                mode_count_grows(self.outputs@, i + 1);
            }
            modes = modes + self.outputs[i].modes.len() as u64;
            i += 1;
        }
        assert(self.outputs@.subrange(0, i as int) =~= self.outputs@);
        let mut text = concat2("seat=", self.seat.as_str());
        text.append(", device=");
        text.append(self.device.as_str());
        text.append(", atomic=");
        text.append(
            if self.atomic {
                "true"
            } else {
                "false"
            },
        );
        text.append(", status=");
        text.append(self.status.label());
        text.append(", outputs=");
        text.append(decimal_text(self.outputs.len() as u64).as_str());
        text.append(", modes=");
        text.append(decimal_text(modes).as_str());
        text.append(", hotplug_generation=");
        text.append(decimal_text(self.hotplug_generation).as_str());
        text
    }

    /// Whether a connected output can be used for scanout.
    pub fn has_scanout_output(&self) -> (yes: bool)
        ensures
            yes == has_mode(self.outputs@),
    {
        let mut i: usize = 0;
        while i < self.outputs.len()
            invariant
                i <= self.outputs.len(),
                forall|k: int| 0 <= k < i ==> (#[trigger] self.outputs@[k]).modes.len() == 0,
            decreases self.outputs.len() - i,
        {
            if self.outputs[i].modes.len() > 0 {
                return true;
            }
            i += 1;
        }
        false
    }
}

proof fn mode_count_grows(outputs: Seq<NativeOutput>, n: int)
    requires
        0 <= n <= outputs.len(),
    ensures
        mode_count(outputs.subrange(0, n)) <= mode_count(outputs),
    decreases outputs.len(),
{
    if n < outputs.len() {
        assert(outputs.drop_last().subrange(0, n) =~= outputs.subrange(0, n));
        mode_count_grows(outputs.drop_last(), n);
    } else {
        assert(outputs.subrange(0, n) =~= outputs);
    }
}

// ---- startup -------------------------------------------------------------------------

/// What the file system told about the runtime directory.
#[derive(Debug, Clone)]
pub struct RuntimeDirFacts {
    pub is_directory: bool,
    /// Why a file could not be written into it, if it could not.
    pub write_error: Option<String>,
    /// Whether each of `wayland-0` to `wayland-31` is taken.
    pub sockets_taken: [bool; 32],
}

pub open spec fn all_taken(sockets: Seq<bool>) -> bool {
    forall|i: int| 0 <= i < sockets.len() ==> #[trigger] sockets[i]
}

/// Why a session cannot start in this environment.
pub open spec fn preflight_fault(runtime_dir: Option<Seq<char>>, facts: RuntimeDirFacts) -> Option<
    ErrorModel,
> {
    let not_ready = NativeDrmErrorKind::NotReady;
    match runtime_dir {
        None => Some(
            error_model(
                not_ready,
                "XDG_RUNTIME_DIR is not set, so the Wayland socket cannot be created; start the session from a display manager or a logind session"@,
            ),
        ),
        Some(path) => if !facts.is_directory {
            Some(
                error_model(
                    not_ready,
                    "XDG_RUNTIME_DIR="@ + path + " is not an existing directory"@,
                ),
            )
        } else if facts.write_error is Some {
            Some(
                error_model(
                    not_ready,
                    "XDG_RUNTIME_DIR="@ + path + " is not writable: "@
                        + facts.write_error->Some_0@,
                ),
            )
        } else if all_taken(facts.sockets_taken@) {
            Some(
                error_model(
                    not_ready,
                    "no free Wayland socket name in "@ + path
                        + "; wayland-0 through wayland-31 are all taken"@,
                ),
            )
        } else {
            None
        },
    }
}

pub open spec fn tells(result: Result<(), NativeDrmError>, fault: Option<ErrorModel>) -> bool {
    match (result, fault) {
        (Ok(_), None) => true,
        (Err(error), Some(expected)) => error@ == expected,
        _ => false,
    }
}

/// Validates everything the Wayland side needs before any DRM master is taken.
///
/// Once the scanout surface exists the display manager's framebuffer is gone,
/// and every later failure is a black screen. Checking first keeps a
/// recoverable failure on the greeter, where its message can be read.
pub fn preflight(environment: &SessionEnvironment, facts: &RuntimeDirFacts) -> (result: Result<
    (),
    NativeDrmError,
>)
    ensures
        tells(result, preflight_fault(option_view(environment.runtime_dir), *facts)),
{
    match &environment.runtime_dir {
        None => Err(
            NativeDrmError::new(
                NativeDrmErrorKind::NotReady,
                "XDG_RUNTIME_DIR is not set, so the Wayland socket cannot be created; start the session from a display manager or a logind session".to_owned(),
            ),
        ),
        Some(path) => {
            if !facts.is_directory {
                return Err(
                    NativeDrmError::new(
                        NativeDrmErrorKind::NotReady,
                        concat3(
                            "XDG_RUNTIME_DIR=",
                            path.as_str(),
                            " is not an existing directory",
                        ),
                    ),
                );
            }
            match &facts.write_error {
                Some(error) => {
                    let opening = concat3(
                        "XDG_RUNTIME_DIR=",
                        path.as_str(),
                        " is not writable: ",
                    );
                    return Err(
                        NativeDrmError::new(
                            NativeDrmErrorKind::NotReady,
                            concat2(opening.as_str(), error.as_str()),
                        ),
                    );
                },
                None => {},
            }
            let mut i: usize = 0;
            while i < 32
                invariant
                    i <= 32,
                    forall|k: int| 0 <= k < i ==> #[trigger] facts.sockets_taken@[k],
                    facts.is_directory,
                    facts.write_error is None,
                    environment.runtime_dir is Some,
                decreases 32 - i,
            {
                if !facts.sockets_taken[i] {
                    assert(!facts.sockets_taken@[i as int]);
                    return Ok(());
                }
                i += 1;
            }
            Err(
                NativeDrmError::new(
                    NativeDrmErrorKind::NotReady,
                    concat3(
                        "no free Wayland socket name in ",
                        path.as_str(),
                        "; wayland-0 through wayland-31 are all taken",
                    ),
                ),
            )
        },
    }
}

/// How many times a native startup is tried across a seat hand-off.
pub const OPEN_ATTEMPTS: u32 = 4;

/// Pause between native startup attempts, in milliseconds.
pub const OPEN_BACKOFF_MS: u64 = 250;

/// Whether a startup is tried again: its error may pass, and attempts are left.
pub open spec fn tries_again(attempt: u32, error: ErrorModel) -> bool {
    attempt < OPEN_ATTEMPTS && error.transient()
}

/// Whether a startup that failed at this attempt, counted from one, is tried
/// again after a pause.
pub fn retries_open(attempt: u32, error: &NativeDrmError) -> (again: bool)
    ensures
        again == tries_again(attempt, error@),
{
    attempt < OPEN_ATTEMPTS && error.is_transient()
}

/// The seat that is acquired.
pub open spec fn seat_choice(asked: Option<Seq<char>>, own: Seq<char>) -> Seq<char> {
    match asked {
        Some(name) => name,
        None => own,
    }
}

/// The seat to acquire: the one asked for, else the session's own.
pub fn requested_seat<'a>(options: &'a SessionOptions, environment: &'a SessionEnvironment) -> (seat:
    &'a str)
    ensures
        seat@ == seat_choice(option_view(options.seat), environment.seat@),
{
    match &options.seat {
        Some(name) => name.as_str(),
        None => environment.seat.as_str(),
    }
}

pub open spec fn seat_fault(requested: Seq<char>, active: bool) -> Option<ErrorModel> {
    if active {
        None
    } else {
        Some(
            error_model(
                NativeDrmErrorKind::Seat,
                "libseat opened "@ + debug_quoted(requested)
                    + ", but it is not active; wait for the enable event or start Rouch from a VT"@,
            ),
        )
    }
}

/// A seat must be active before its devices are opened.
pub fn check_seat(requested: &str, active: bool) -> (result: Result<(), NativeDrmError>)
    ensures
        tells(result, seat_fault(requested@, active)),
{
    if active {
        Ok(())
    } else {
        Err(
            NativeDrmError::new(
                NativeDrmErrorKind::Seat,
                concat3(
                    "libseat opened ",
                    quoted(requested).as_str(),
                    ", but it is not active; wait for the enable event or start Rouch from a VT",
                ),
            ),
        )
    }
}

/// The device that a session opens: the one asked for, which is an absolute
/// path, else the primary GPU of the seat.
pub open spec fn device_choice(
    requested: Option<Seq<char>>,
    primary: Result<Option<Seq<char>>, Seq<char>>,
    seat: Seq<char>,
) -> Result<Seq<char>, ErrorModel> {
    match requested {
        Some(path) => if is_absolute(path) {
            Ok(path)
        } else {
            Err(
                error_model(
                    NativeDrmErrorKind::Device,
                    "ROUCH_DRM_DEVICE must be an absolute path"@,
                ),
            )
        },
        None => match primary {
            Err(error) => Err(error_model(NativeDrmErrorKind::Udev, error)),
            Ok(Some(path)) => Ok(path),
            Ok(None) => Err(
                error_model(
                    NativeDrmErrorKind::NoDevice,
                    "udev found no primary GPU for seat "@ + debug_quoted(seat),
                ),
            ),
        },
    }
}

pub open spec fn gpu_view(primary: Result<Option<String>, String>) -> Result<
    Option<Seq<char>>,
    Seq<char>,
> {
    match primary {
        Ok(path) => Ok(option_view(path)),
        Err(error) => Err(error@),
    }
}

pub fn select_device(
    requested: &Option<String>,
    primary: &Result<Option<String>, String>,
    seat: &str,
) -> (result: Result<String, NativeDrmError>)
    ensures
        match (result, device_choice(option_view(*requested), gpu_view(*primary), seat@)) {
            (Ok(path), Ok(expected)) => path@ == expected,
            (Err(error), Err(expected)) => error@ == expected,
            _ => false,
        },
{
    match requested {
        Some(path) => {
            if !absolute(path.as_str()) {
                return Err(
                    NativeDrmError::new(
                        NativeDrmErrorKind::Device,
                        "ROUCH_DRM_DEVICE must be an absolute path".to_owned(),
                    ),
                );
            }
            return Ok(path.clone());
        },
        None => {},
    }
    match primary {
        Err(error) => Err(NativeDrmError::new(NativeDrmErrorKind::Udev, error.clone())),
        Ok(Some(path)) => Ok(path.clone()),
        Ok(None) => Err(
            NativeDrmError::new(
                NativeDrmErrorKind::NoDevice,
                concat2("udev found no primary GPU for seat ", quoted(seat).as_str()),
            ),
        ),
    }
}

/// Modesetting is only legal on a primary node; `found` names the type of the
/// node that was opened.
pub fn check_node(path: &str, is_primary: bool, found: &str) -> (result: Result<
    (),
    NativeDrmError,
>)
    ensures
        tells(
            result,
            if is_primary {
                None
            } else {
                Some(
                    error_model(
                        NativeDrmErrorKind::Device,
                        path@ + " is "@ + found@
                            + ", but native modesetting needs a primary card node"@,
                    ),
                )
            },
        ),
{
    if is_primary {
        Ok(())
    } else {
        Err(
            NativeDrmError::new(
                NativeDrmErrorKind::Device,
                concat2(
                    concat3(path, " is ", found).as_str(),
                    ", but native modesetting needs a primary card node",
                ),
            ),
        )
    }
}

// ---- the scanout state machine ---------------------------------------------------------

/// What a probe read of one connector.
#[derive(Debug, Clone)]
pub enum ProbedConnector {
    Connected(NativeOutput),
    Disconnected,
    Failed(String),
}

/// The connected outputs of a probe, in order.
pub open spec fn connected_outputs(probe: Seq<ProbedConnector>) -> Seq<NativeOutput>
    decreases probe.len(),
{
    if probe.len() == 0 {
        Seq::empty()
    } else {
        let before = connected_outputs(probe.drop_last());
        match probe.last() {
            ProbedConnector::Connected(output) => before.push(output),
            _ => before,
        }
    }
}

/// What is wrong with the first probe of a device, if anything is: it has no
/// output with a mode.
pub open spec fn probe_fault(probe: Seq<ProbedConnector>, device: Seq<char>) -> Option<ErrorModel> {
    if has_mode(connected_outputs(probe)) {
        None
    } else {
        Some(
            error_model(
                NativeDrmErrorKind::NoOutput,
                device + " has no connected connector with an advertised mode"@,
            ),
        )
    }
}

/// The first error of a probe.
pub open spec fn first_fault(probe: Seq<ProbedConnector>) -> Option<Seq<char>>
    decreases probe.len(),
{
    if probe.len() == 0 {
        None
    } else {
        let before = first_fault(probe.drop_last());
        match (before, probe.last()) {
            (None, ProbedConnector::Failed(error)) => Some(error@),
            _ => before,
        }
    }
}

/// Which event set a recovery in motion.
#[derive(Debug, Clone, Copy, PartialEq, Eq, Structural)]
pub enum Recovery {
    /// The seat became active.
    Activation,
    /// A DRM device appeared or changed.
    Hotplug,
    /// The frame timer retries.
    Retry,
}

/// The device call that comes next.
#[derive(Debug, Clone, Copy, PartialEq, Eq, Structural)]
pub enum DeviceStep {
    /// Activate the device.
    Activate,
    /// Read the connectors.
    Probe,
    /// Read the scanout candidates.
    ReadCandidates,
    /// Create the surface of the pipeline again.
    Reactivate,
    /// Create a pipeline for this candidate.
    Build(NativeOutputConfig),
    /// Nothing more; whether scanout is active.
    Done(bool),
}

/// The outcome of a device call.
#[derive(Debug)]
pub enum DeviceEvent {
    Activated(Result<(), String>),
    /// The connectors, or none where the device is not active.
    Probed(Result<Option<Vec<ProbedConnector>>, String>),
    /// The candidates, or none where the device is not active.
    Candidates(Result<Option<Vec<NativeOutputConfig>>, String>),
    Reactivated(Result<(), String>),
    /// Whether the pipeline that was asked for last was created.
    Built(Result<(), String>),
}

/// What the native backend holds.
#[verifier::ext_equal]
pub struct BackendState {
    pub status: NativeDrmStatus,
    pub outputs: Seq<NativeOutput>,
    pub hotplug_generation: u64,
    pub last_error: Option<Seq<char>>,
    pub scanout: Option<NativeOutputConfig>,
    pub pipeline: Option<NativeFramePipeline>,
    pub needs_reprobe: bool,
    /// The candidates that are left to try; a pipeline for the first of them
    /// is being created.
    pub untried: Seq<NativeOutputConfig>,
}

pub open spec fn paused_pipeline(pipeline: Option<NativeFramePipeline>) -> Option<
    NativeFramePipeline,
> {
    match pipeline {
        Some(p) => Some(p.paused()),
        None => None,
    }
}

pub open spec fn restore_text(last_error: Seq<char>) -> Seq<char> {
    "DRM outputs are connected, but scanout could not be restored"@ + ": "@ + last_error
}

pub open spec fn startup_text(last_error: Option<Seq<char>>) -> Seq<char> {
    let opening =
        "connected DRM outputs were found, but no GBM/EGL/GLES scanout pipeline could be initialized"@;
    match last_error {
        Some(error) => opening + ": "@ + error,
        None => opening,
    }
}

impl BackendState {
    pub open spec fn fresh() -> Self {
        BackendState {
            status: NativeDrmStatus::Active,
            outputs: Seq::empty(),
            hotplug_generation: 0,
            last_error: None,
            scanout: None,
            pipeline: None,
            needs_reprobe: false,
            untried: Seq::empty(),
        }
    }

    pub open spec fn wf(self) -> bool {
        self.pipeline matches Some(pipeline) ==> pipeline.wf()
    }

    /// Why no frame may be begun, if there is a reason.
    pub open spec fn frame_fault(self) -> Option<ErrorModel> {
        match self.pipeline {
            None => Some(
                error_model(
                    NativeDrmErrorKind::NotReady,
                    "native GBM/EGL/GLES pipeline is not active"@,
                ),
            ),
            Some(pipeline) => match pipeline.refusal() {
                Some(crate::native::FrameRefusal::FlipPending) => Some(
                    error_model(
                        NativeDrmErrorKind::Drm,
                        "native scanout is waiting for the previous page-flip"@,
                    ),
                ),
                Some(crate::native::FrameRefusal::SurfacePaused) => Some(
                    error_model(NativeDrmErrorKind::Drm, "native scanout surface is paused"@),
                ),
                None => None,
            },
        }
    }

    /// Whether a frame can be drawn: the session is active and its pipeline has
    /// room for one.
    pub open spec fn renderable(self) -> bool {
        self.status == NativeDrmStatus::Active && (self.pipeline matches Some(pipeline)
            && pipeline.ready())
    }

    /// A scanout loss that a later probe can still undo.
    pub open spec fn recovering(self, error: ErrorModel) -> Self {
        BackendState {
            status: NativeDrmStatus::Recovering,
            last_error: Some(error.text()),
            needs_reprobe: true,
            ..self
        }
    }

    pub open spec fn failed(self, error: ErrorModel) -> Self {
        BackendState {
            status: NativeDrmStatus::Failed,
            last_error: Some(error.text()),
            needs_reprobe: true,
            ..self
        }
    }

    /// The seat was paused: DRM master is gone.
    pub open spec fn paused(self) -> Self {
        BackendState {
            status: NativeDrmStatus::Paused,
            outputs: Seq::empty(),
            pipeline: paused_pipeline(self.pipeline),
            needs_reprobe: false,
            ..self
        }
    }

    pub open spec fn released(self) -> Self {
        BackendState { pipeline: paused_pipeline(self.pipeline), ..self }
    }

    /// A recovery that failed. The frame timer keeps the status for its next
    /// try; the other events turn it to recovering.
    pub open spec fn setback(self, recovery: Recovery, error: ErrorModel) -> Self {
        if recovery == Recovery::Retry {
            BackendState { last_error: Some(error.text()), ..self }
        } else {
            self.recovering(error)
        }
    }

    /// What the connectors showed.
    pub open spec fn probed(self, probe: Seq<ProbedConnector>) -> Self {
        let outputs = connected_outputs(probe);
        BackendState {
            outputs,
            last_error: first_fault(probe),
            status: if has_mode(outputs) {
                NativeDrmStatus::Active
            } else {
                NativeDrmStatus::NoOutputs
            },
            needs_reprobe: false,
            ..self
        }
    }

    /// A pipeline for this candidate was created: no other is tried.
    pub open spec fn piped(self, config: NativeOutputConfig) -> Self {
        BackendState {
            scanout: Some(config),
            pipeline: Some(NativeFramePipeline::fresh(config)),
            untried: Seq::empty(),
            ..self
        }
    }

    pub open spec fn restored(self, config: NativeOutputConfig) -> Self {
        BackendState { status: NativeDrmStatus::Active, last_error: None, ..self.piped(config) }
    }

    /// The first of the candidates that are left did not allow a pipeline.
    pub open spec fn passed_over(self) -> Self {
        BackendState { untried: self.untried.drop_first(), ..self }
    }

    /// The first call of a recovery.
    pub open spec fn first_step(self, recovery: Recovery, device_active: bool) -> DeviceStep {
        match recovery {
            Recovery::Activation => DeviceStep::Activate,
            Recovery::Hotplug => DeviceStep::Probe,
            Recovery::Retry => match self.status {
                NativeDrmStatus::Active => DeviceStep::Done(true),
                NativeDrmStatus::Failed | NativeDrmStatus::Paused => DeviceStep::Done(false),
                _ => if !device_active {
                    DeviceStep::Activate
                } else if self.needs_reprobe {
                    DeviceStep::Probe
                } else {
                    DeviceStep::ReadCandidates
                },
            },
        }
    }

    /// The state after a device call of a recovery, and the call after it.
    pub open spec fn after_call(self, recovery: Recovery, event: DeviceEvent) -> (Self, DeviceStep) {
        let drm = NativeDrmErrorKind::Drm;
        match event {
            DeviceEvent::Activated(Ok(_)) => (
                BackendState {
                    status: if recovery == Recovery::Retry {
                        self.status
                    } else {
                        NativeDrmStatus::Recovering
                    },
                    needs_reprobe: true,
                    ..self
                },
                DeviceStep::Probe,
            ),
            DeviceEvent::Activated(Err(error)) => if recovery == Recovery::Retry {
                (
                    BackendState { last_error: Some(error@), ..self },
                    DeviceStep::Done(false),
                )
            } else {
                (self.recovering(error_model(drm, error@)), DeviceStep::Done(false))
            },
            DeviceEvent::Probed(Ok(Some(probe))) => (
                self.probed(probe@),
                DeviceStep::ReadCandidates,
            ),
            DeviceEvent::Probed(Ok(None)) => (
                BackendState { status: NativeDrmStatus::Paused, ..self },
                DeviceStep::ReadCandidates,
            ),
            DeviceEvent::Probed(Err(error)) | DeviceEvent::Candidates(Err(error))
            | DeviceEvent::Reactivated(Err(error)) => (
                self.setback(recovery, error_model(drm, error@)),
                DeviceStep::Done(false),
            ),
            DeviceEvent::Candidates(Ok(None)) => (
                self,
                DeviceStep::Done(self.status == NativeDrmStatus::Active),
            ),
            DeviceEvent::Candidates(Ok(Some(candidates))) => if candidates@.len() == 0 {
                (
                    BackendState {
                        pipeline: paused_pipeline(self.pipeline),
                        scanout: None,
                        status: NativeDrmStatus::NoOutputs,
                        ..self
                    },
                    DeviceStep::Done(false),
                )
            } else {
                match self.pipeline {
                    Some(pipeline) if candidates@.contains(pipeline.output) => (
                        self,
                        DeviceStep::Reactivate,
                    ),
                    _ => (
                        BackendState { pipeline: None, untried: candidates@, ..self },
                        DeviceStep::Build(candidates@[0]),
                    ),
                }
            },
            DeviceEvent::Reactivated(Ok(_)) => match self.pipeline {
                Some(pipeline) => (
                    BackendState {
                        pipeline: Some(pipeline.activated()),
                        scanout: Some(pipeline.output),
                        status: NativeDrmStatus::Active,
                        ..self
                    },
                    DeviceStep::Done(true),
                ),
                None => (self, DeviceStep::Done(self.status == NativeDrmStatus::Active)),
            },
            DeviceEvent::Built(outcome) => if self.untried.len() == 0 {
                (self, DeviceStep::Done(self.status == NativeDrmStatus::Active))
            } else {
                match outcome {
                    Ok(_) => (self.restored(self.untried[0]), DeviceStep::Done(true)),
                    Err(error) => if self.untried.len() > 1 {
                        (self.passed_over(), DeviceStep::Build(self.untried[1]))
                    } else {
                        (
                            self.passed_over().setback(
                                recovery,
                                error_model(drm, restore_text(error@)),
                            ),
                            DeviceStep::Done(false),
                        )
                    },
                }
            },
        }
    }

    /// The state after pipelines were asked for with these outcomes, one after
    /// the other, and the call after the last of them. No more are asked for
    /// once a call tells something else.
    pub open spec fn after_builds(self, recovery: Recovery, outcomes: Seq<Result<(), String>>) -> (
        Self,
        DeviceStep,
    )
        decreases outcomes.len(),
    {
        if outcomes.len() == 0 {
            (
                self,
                if self.untried.len() > 0 {
                    DeviceStep::Build(self.untried[0])
                } else {
                    DeviceStep::Done(self.status == NativeDrmStatus::Active)
                },
            )
        } else {
            let (next, step) = self.after_call(recovery, DeviceEvent::Built(outcomes[0]));
            if step is Build {
                next.after_builds(recovery, outcomes.drop_first())
            } else {
                (next, step)
            }
        }
    }

    /// What a udev event does before anything is probed.
    pub open spec fn hotplugged(self, removed: bool) -> Self {
        let counted = BackendState {
            hotplug_generation: crate::native::one_more(self.hotplug_generation),
            needs_reprobe: true,
            ..self
        };
        if removed {
            BackendState {
                outputs: Seq::empty(),
                pipeline: paused_pipeline(self.pipeline),
                ..counted
            }.failed(
                error_model(
                    NativeDrmErrorKind::Device,
                    "selected DRM node was removed; native session cannot safely continue"@,
                ),
            )
        } else {
            counted
        }
    }
}

/// The seat, DRM device and scanout of a native session.
pub struct NativeDrmBackend {
    report: NativeDrmReport,
    device_id: u64,
    scanout: Option<NativeOutputConfig>,
    pipeline: Option<NativeFramePipeline>,
    needs_reprobe: bool,
    untried: Vec<NativeOutputConfig>,
}

fn pause_pipeline(pipeline: Option<NativeFramePipeline>) -> (result: Option<NativeFramePipeline>)
    ensures
        result == paused_pipeline(pipeline),
{
    match pipeline {
        Some(p) => {
            let mut paused = p;
            paused.pause();
            Some(paused)
        },
        None => None,
    }
}

impl NativeDrmBackend {
    pub closed spec fn state(&self) -> BackendState {
        BackendState {
            status: self.report.status,
            outputs: self.report.outputs@,
            hotplug_generation: self.report.hotplug_generation,
            last_error: option_view(self.report.last_error),
            scanout: self.scanout,
            pipeline: self.pipeline,
            needs_reprobe: self.needs_reprobe,
            untried: self.untried@,
        }
    }

    /// What does not change: the seat, the device, its number and whether it
    /// is driven atomically.
    pub closed spec fn identity(&self) -> (Seq<char>, Seq<char>, u64, bool) {
        (self.report.seat@, self.report.device@, self.device_id, self.report.atomic)
    }

    pub open spec fn wf(&self) -> bool {
        self.state().wf()
    }

    /// The state of a session whose device was just opened.
    pub fn opened(seat: String, device: String, device_id: u64, atomic: bool) -> (backend: Self)
        ensures
            backend.state() == BackendState::fresh(),
            backend.identity() == (seat@, device@, device_id, atomic),
            backend.wf(),
    {
        let backend = NativeDrmBackend {
            report: NativeDrmReport {
                seat,
                device,
                atomic,
                status: NativeDrmStatus::Active,
                outputs: Vec::new(),
                hotplug_generation: 0,
                last_error: None,
            },
            device_id,
            scanout: None,
            pipeline: None,
            needs_reprobe: false,
            untried: Vec::new(),
        };
        assert(backend.state() =~= BackendState::fresh());
        backend
    }

    /// Concludes the probe of a newly opened device: it must have an output
    /// with a mode.
    pub fn first_probe(&mut self, probe: Vec<ProbedConnector>) -> (result: Result<
        (),
        NativeDrmError,
    >)
        requires
            old(self).wf(),
        ensures
            final(self).wf(),
            final(self).identity() == old(self).identity(),
            final(self).state() == old(self).state().probed(probe@),
            tells(result, probe_fault(probe@, old(self).identity().1)),
    {
        self.apply_probe(probe);
        if self.report.has_scanout_output() {
            Ok(())
        } else {
            Err(
                NativeDrmError::new(
                    NativeDrmErrorKind::NoOutput,
                    concat2(
                        self.report.device.as_str(),
                        " has no connected connector with an advertised mode",
                    ),
                ),
            )
        }
    }

    /// Begins the search for the first scanout pipeline with the candidates
    /// that the device has, and tells the first to try.
    pub fn first_candidates(&mut self, candidates: Vec<NativeOutputConfig>) -> (result: Result<
        NativeOutputConfig,
        NativeDrmError,
    >)
        requires
            old(self).wf(),
        ensures
            final(self).wf(),
            final(self).identity() == old(self).identity(),
            final(self).state() == (BackendState { untried: candidates@, ..old(self).state() }),
            match result {
                Ok(config) => candidates@.len() > 0 && config == candidates@[0],
                Err(error) => candidates@.len() == 0 && error@ == error_model(
                    NativeDrmErrorKind::Drm,
                    startup_text(None),
                ),
            },
    {
        self.untried = candidates;
        if self.untried.len() > 0 {
            Ok(self.untried[0])
        } else {
            Err(
                NativeDrmError::new(
                    NativeDrmErrorKind::Drm,
                    "connected DRM outputs were found, but no GBM/EGL/GLES scanout pipeline could be initialized".to_owned(),
                ),
            )
        }
    }

    /// Takes whether the first of the candidates that are left allowed a
    /// pipeline, and tells the next to try, or none where one was found. The
    /// last error is told where none allows one.
    pub fn first_pipeline(&mut self, built: Result<(), String>) -> (result: Result<
        Option<NativeOutputConfig>,
        NativeDrmError,
    >)
        requires
            old(self).wf(),
        ensures
            final(self).wf(),
            final(self).identity() == old(self).identity(),
            old(self).state().untried.len() == 0 ==> {
                &&& final(self).state() == old(self).state()
                &&& result matches Err(told) && told@ == error_model(
                    NativeDrmErrorKind::Drm,
                    startup_text(None),
                )
            },
            old(self).state().untried.len() > 0 ==> match built {
                Ok(_) => result == Ok::<Option<NativeOutputConfig>, NativeDrmError>(None)
                    && final(self).state() == old(self).state().piped(old(self).state().untried[0]),
                Err(error) => {
                    &&& final(self).state() == old(self).state().passed_over()
                    &&& match result {
                        Ok(next) => old(self).state().untried.len() > 1 && next == Some(
                            old(self).state().untried[1],
                        ),
                        Err(told) => old(self).state().untried.len() == 1 && told@ == error_model(
                            NativeDrmErrorKind::Drm,
                            startup_text(Some(error@)),
                        ),
                    }
                },
            },
    {
        let ghost before = self.state();
        let opening =
            "connected DRM outputs were found, but no GBM/EGL/GLES scanout pipeline could be initialized";
        if self.untried.len() == 0 {
            return Err(NativeDrmError::new(NativeDrmErrorKind::Drm, opening.to_owned()));
        }
        let config: NativeOutputConfig = self.untried[0];
        match built {
            Ok(_) => {
                self.scanout = Some(config);
                self.pipeline = Some(NativeFramePipeline::new(config));
                self.untried.clear();
                assert(self.state() =~= before.piped(config));
                Ok(None)
            },
            Err(error) => {
                self.untried.remove(0);
                assert(self.state() =~= before.passed_over());
                if self.untried.len() > 0 {
                    return Ok(Some(self.untried[0]));
                }
                Err(
                    NativeDrmError::new(
                        NativeDrmErrorKind::Drm,
                        concat3(opening, ": ", error.as_str()),
                    ),
                )
            },
        }
    }

    /// Validates a VT before libseat is asked for it.
    pub fn change_vt(&self, vt: i32) -> (result: Result<i32, NativeDrmError>)
        ensures
            match result {
                Ok(accepted) => is_vt(vt as int) && accepted == vt,
                Err(error) => !is_vt(vt as int) && error@ == error_model(
                    NativeDrmErrorKind::Seat,
                    vt_message(vt as int),
                ),
            },
    {
        match validate_vt(vt) {
            Ok(vt) => Ok(vt),
            Err(message) => Err(NativeDrmError::new(NativeDrmErrorKind::Seat, message)),
        }
    }

    pub fn report(&self) -> (report: &NativeDrmReport)
        ensures
            report.status == self.state().status,
            report.outputs@ == self.state().outputs,
            report.hotplug_generation == self.state().hotplug_generation,
            option_view(report.last_error) == self.state().last_error,
            report.seat@ == self.identity().0,
            report.device@ == self.identity().1,
            report.atomic == self.identity().3,
    {
        &self.report
    }

    pub fn has_scanout_output(&self) -> (yes: bool)
        ensures
            yes == has_mode(self.state().outputs),
    {
        self.report.has_scanout_output()
    }

    pub fn status(&self) -> (status: NativeDrmStatus)
        ensures
            status == self.state().status,
    {
        self.report.status
    }

    pub fn can_render(&self) -> (yes: bool)
        ensures
            yes == self.state().renderable(),
    {
        self.report.status == NativeDrmStatus::Active && match &self.pipeline {
            Some(pipeline) => pipeline.can_render(),
            None => false,
        }
    }

    /// Whether a frame may be begun; without a pipeline there is none.
    pub fn begin_frame(&self) -> (result: Result<(), NativeDrmError>)
        ensures
            tells(result, self.state().frame_fault()),
    {
        match &self.pipeline {
            None => Err(
                NativeDrmError::new(
                    NativeDrmErrorKind::NotReady,
                    "native GBM/EGL/GLES pipeline is not active".to_owned(),
                ),
            ),
            Some(pipeline) => match pipeline.begin_frame() {
                Ok(_) => Ok(()),
                Err(refusal) => Err(
                    NativeDrmError::new(NativeDrmErrorKind::Drm, refusal.message().to_owned()),
                ),
            },
        }
    }

    /// Records that a frame was queued.
    pub fn frame_queued(&mut self)
        requires
            old(self).wf(),
            old(self).state().pipeline matches Some(pipeline) && pipeline.ready(),
        ensures
            final(self).wf(),
            final(self).identity() == old(self).identity(),
            final(self).state() == (BackendState {
                pipeline: Some(
                    NativeFramePipeline {
                        frame_pending: true,
                        queued: crate::native::one_more(old(self).state().pipeline->Some_0.queued),
                        ..old(self).state().pipeline->Some_0
                    },
                ),
                ..old(self).state()
            }),
    {
        match self.pipeline {
            Some(pipeline) => {
                let mut next = pipeline;
                next.frame_queued();
                self.pipeline = Some(next);
            },
            None => {},
        }
    }

    /// Records a vblank of this output. True when a frame was presented.
    pub fn frame_submitted(&mut self, crtc: u32, completed: bool) -> (presented: bool)
        requires
            old(self).wf(),
        ensures
            final(self).wf(),
            final(self).identity() == old(self).identity(),
            match old(self).state().pipeline {
                None => !presented && final(self).state() == old(self).state(),
                Some(pipeline) => {
                    &&& presented == (crtc == pipeline.output.crtc && pipeline.surface_active
                        && completed)
                    &&& final(self).state() == (BackendState {
                        pipeline: Some(pipeline.after_vblank(crtc, completed)),
                        ..old(self).state()
                    })
                },
            },
    {
        match self.pipeline {
            Some(pipeline) => {
                let mut next = pipeline;
                let presented = next.frame_submitted(crtc, completed);
                self.pipeline = Some(next);
                presented
            },
            None => false,
        }
    }

    /// Number of frames whose page-flip has reached vblank.
    pub fn presented_frames(&self) -> (frames: u64)
        ensures
            frames == (match self.state().pipeline {
                Some(pipeline) => pipeline.presented,
                None => 0,
            }),
    {
        match &self.pipeline {
            Some(pipeline) => pipeline.presented_frames(),
            None => 0,
        }
    }

    /// The selected physical output and mode, if native resources exist.
    pub fn scanout_config(&self) -> (config: Option<NativeOutputConfig>)
        ensures
            config == self.state().scanout,
    {
        self.scanout
    }

    /// The seat was paused.
    pub fn on_pause(&mut self)
        requires
            old(self).wf(),
        ensures
            final(self).wf(),
            final(self).identity() == old(self).identity(),
            final(self).state() == old(self).state().paused(),
    {
        self.pipeline = pause_pipeline(self.pipeline);
        self.report.status = NativeDrmStatus::Paused;
        self.report.outputs.clear();
        self.needs_reprobe = false;
        assert(self.report.outputs@ =~= Seq::empty());
    }

    /// A DRM device was added, changed or removed. The return value tells
    /// whether the outputs are to be probed again: not where the session's
    /// own device is gone.
    pub fn on_udev_event(&mut self, removed_device: Option<u64>) -> (probe: bool)
        requires
            old(self).wf(),
        ensures
            final(self).wf(),
            final(self).identity() == old(self).identity(),
            probe == (removed_device != Some(old(self).identity().2)),
            final(self).state() == old(self).state().hotplugged(!probe),
    {
        self.report.hotplug_generation = self.report.hotplug_generation.saturating_add(1);
        self.needs_reprobe = true;
        let removed = match removed_device {
            Some(device) => device == self.device_id,
            None => false,
        };
        if removed {
            self.pipeline = pause_pipeline(self.pipeline);
            self.report.outputs.clear();
            assert(self.report.outputs@ =~= Seq::empty());
            self.mark_failure(
                NativeDrmError::new(
                    NativeDrmErrorKind::Device,
                    "selected DRM node was removed; native session cannot safely continue".to_owned(),
                ),
            );
        }
        !removed
    }

    /// Drops the scanout surface, so that the next recovery builds it anew.
    pub fn release_scanout_surface(&mut self)
        requires
            old(self).wf(),
        ensures
            final(self).wf(),
            final(self).identity() == old(self).identity(),
            final(self).state() == old(self).state().released(),
    {
        self.pipeline = pause_pipeline(self.pipeline);
    }

    /// Records a scanout loss that a later probe can still undo. Marking it
    /// failed would stop the event loop.
    pub fn mark_recovering(&mut self, error: NativeDrmError)
        ensures
            old(self).wf() ==> final(self).wf(),
            final(self).identity() == old(self).identity(),
            final(self).state() == old(self).state().recovering(error@),
    {
        self.report.status = NativeDrmStatus::Recovering;
        self.report.last_error = Some(error.message());
        self.needs_reprobe = true;
    }

    /// Records a failure that ends the session.
    pub fn mark_failure(&mut self, error: NativeDrmError)
        ensures
            old(self).wf() ==> final(self).wf(),
            final(self).identity() == old(self).identity(),
            final(self).state() == old(self).state().failed(error@),
    {
        self.report.status = NativeDrmStatus::Failed;
        self.report.last_error = Some(error.message());
        self.needs_reprobe = true;
    }

    fn apply_probe(&mut self, probe: Vec<ProbedConnector>)
        requires
            old(self).wf(),
        ensures
            final(self).wf(),
            final(self).identity() == old(self).identity(),
            final(self).state() == old(self).state().probed(probe@),
    {
        let ghost before = self.state();
        let mut outputs: Vec<NativeOutput> = Vec::new();
        let mut fault: Option<String> = None;
        let ghost all = probe@;
        let mut rest = reversed(probe);
        let ghost mut n: int = 0;
        assert(outputs@ =~= connected_outputs(all.subrange(0, 0)));
        while rest.len() > 0
            invariant
                0 <= n,
                n + rest.len() == all.len(),
                forall|k: int| 0 <= k < rest.len() ==> #[trigger] rest@[k] == all[all.len() - 1 - k],
                outputs@ == connected_outputs(all.subrange(0, n)),
                option_view(fault) == first_fault(all.subrange(0, n)),
            decreases rest.len(),
        {
            let ghost next = all.subrange(0, n + 1);
            assert(next.drop_last() =~= all.subrange(0, n));
            let ghost last = rest.len() - 1;
            assert(rest@[last as int] == all[n]);
            match rest.pop() {
                Some(ProbedConnector::Connected(output)) => outputs.push(output),
                Some(ProbedConnector::Disconnected) => {},
                Some(ProbedConnector::Failed(error)) => {
                    if fault.is_none() {
                        fault = Some(error);
                    }
                },
                None => {},
            }
            proof {
                n = n + 1;
            }
        }
        assert(all.subrange(0, n) =~= all);
        self.report.outputs = outputs;
        self.report.last_error = fault;
        self.report.status = if self.report.has_scanout_output() {
            NativeDrmStatus::Active
        } else {
            NativeDrmStatus::NoOutputs
        };
        self.needs_reprobe = false;
        assert(self.state() =~= before.probed(all));
    }

    fn set_back(&mut self, recovery: Recovery, error: NativeDrmError)
        ensures
            old(self).wf() ==> final(self).wf(),
            final(self).identity() == old(self).identity(),
            final(self).state() == old(self).state().setback(recovery, error@),
    {
        if recovery == Recovery::Retry {
            self.report.last_error = Some(error.message());
        } else {
            self.mark_recovering(error);
        }
    }

    /// The first device call of a recovery. A retry of an active session is
    /// done at once, and one of a paused or failed session fails.
    pub fn recovery_start(&self, recovery: Recovery, device_active: bool) -> (step: DeviceStep)
        ensures
            step == self.state().first_step(recovery, device_active),
    {
        match recovery {
            Recovery::Activation => DeviceStep::Activate,
            Recovery::Hotplug => DeviceStep::Probe,
            Recovery::Retry => match self.report.status {
                NativeDrmStatus::Active => DeviceStep::Done(true),
                NativeDrmStatus::Failed | NativeDrmStatus::Paused => DeviceStep::Done(false),
                NativeDrmStatus::Recovering | NativeDrmStatus::NoOutputs => if !device_active {
                    DeviceStep::Activate
                } else if self.needs_reprobe {
                    DeviceStep::Probe
                } else {
                    DeviceStep::ReadCandidates
                },
            },
        }
    }

    /// Takes the outcome of a device call and tells the next one. An existing
    /// pipeline is reused where its connector, CRTC and mode are still
    /// advertised; otherwise it is dropped before another is built, so that no
    /// two surfaces claim the same plane. The candidates are tried in order, and
    /// the first that allows a pipeline is scanned out.
    pub fn try_recover(&mut self, recovery: Recovery, event: DeviceEvent) -> (step: DeviceStep)
        requires
            old(self).wf(),
        ensures
            final(self).wf(),
            final(self).identity() == old(self).identity(),
            (final(self).state(), step) == old(self).state().after_call(recovery, event),
    {
        let ghost before = self.state();
        match event {
            DeviceEvent::Activated(Ok(_)) => {
                if recovery != Recovery::Retry {
                    self.report.status = NativeDrmStatus::Recovering;
                }
                self.needs_reprobe = true;
                DeviceStep::Probe
            },
            DeviceEvent::Activated(Err(error)) => {
                if recovery == Recovery::Retry {
                    self.report.last_error = Some(error);
                } else {
                    self.mark_recovering(NativeDrmError::new(NativeDrmErrorKind::Drm, error));
                }
                DeviceStep::Done(false)
            },
            DeviceEvent::Probed(Ok(Some(probe))) => {
                self.apply_probe(probe);
                DeviceStep::ReadCandidates
            },
            DeviceEvent::Probed(Ok(None)) => {
                self.report.status = NativeDrmStatus::Paused;
                DeviceStep::ReadCandidates
            },
            DeviceEvent::Probed(Err(error)) | DeviceEvent::Candidates(Err(error))
            | DeviceEvent::Reactivated(Err(error)) => {
                self.set_back(recovery, NativeDrmError::new(NativeDrmErrorKind::Drm, error));
                DeviceStep::Done(false)
            },
            DeviceEvent::Candidates(Ok(None)) => DeviceStep::Done(
                self.report.status == NativeDrmStatus::Active,
            ),
            DeviceEvent::Candidates(Ok(Some(candidates))) => {
                if candidates.len() == 0 {
                    self.pipeline = pause_pipeline(self.pipeline);
                    self.scanout = None;
                    self.report.status = NativeDrmStatus::NoOutputs;
                    return DeviceStep::Done(false);
                }
                let reusable = match &self.pipeline {
                    Some(pipeline) => has_config(&candidates, pipeline.config()),
                    None => false,
                };
                if reusable {
                    DeviceStep::Reactivate
                } else {
                    let first: NativeOutputConfig = candidates[0];
                    self.pipeline = None;
                    self.untried = candidates;
                    DeviceStep::Build(first)
                }
            },
            DeviceEvent::Reactivated(Ok(_)) => match self.pipeline {
                Some(pipeline) => {
                    let mut next = pipeline;
                    next.activate();
                    self.pipeline = Some(next);
                    self.scanout = Some(next.config());
                    self.report.status = NativeDrmStatus::Active;
                    DeviceStep::Done(true)
                },
                None => DeviceStep::Done(self.report.status == NativeDrmStatus::Active),
            },
            DeviceEvent::Built(outcome) => {
                if self.untried.len() == 0 {
                    return DeviceStep::Done(self.report.status == NativeDrmStatus::Active);
                }
                let config: NativeOutputConfig = self.untried[0];
                match outcome {
                    Ok(_) => {
                        self.scanout = Some(config);
                        self.pipeline = Some(NativeFramePipeline::new(config));
                        self.untried.clear();
                        self.report.status = NativeDrmStatus::Active;
                        self.report.last_error = None;
                        assert(self.state() =~= before.restored(config));
                        DeviceStep::Done(true)
                    },
                    Err(error) => {
                        self.untried.remove(0);
                        assert(self.state() =~= before.passed_over());
                        if self.untried.len() > 0 {
                            return DeviceStep::Build(self.untried[0]);
                        }
                        let detail = concat3(
                            "DRM outputs are connected, but scanout could not be restored",
                            ": ",
                            error.as_str(),
                        );
                        self.set_back(
                            recovery,
                            NativeDrmError::new(NativeDrmErrorKind::Drm, detail),
                        );
                        DeviceStep::Done(false)
                    },
                }
            },
        }
    }

    pub open spec fn ending(&self) -> Option<ErrorModel> {
        if self.state().status == NativeDrmStatus::Failed {
            Some(
                error_model(
                    NativeDrmErrorKind::Drm,
                    match self.state().last_error {
                        Some(error) => error,
                        None => "native session stopped after an unrecoverable DRM error"@,
                    },
                ),
            )
        } else {
            None
        }
    }

    /// How the session ended, once its event loop has stopped.
    pub fn exit_result(&self) -> (result: Result<(), NativeDrmError>)
        ensures
            tells(result, self.ending()),
    {
        if self.report.status == NativeDrmStatus::Failed {
            let detail = match &self.report.last_error {
                Some(error) => error.clone(),
                None => "native session stopped after an unrecoverable DRM error".to_owned(),
            };
            Err(NativeDrmError::new(NativeDrmErrorKind::Drm, detail))
        } else {
            Ok(())
        }
    }
}

fn has_config(candidates: &Vec<NativeOutputConfig>, config: NativeOutputConfig) -> (yes: bool)
    ensures
        yes == candidates@.contains(config),
{
    let mut i: usize = 0;
    while i < candidates.len()
        invariant
            i <= candidates.len(),
            forall|k: int| 0 <= k < i ==> candidates@[k] != config,
        decreases candidates.len() - i,
    {
        if candidates[i] == config {
            return true;
        }
        i += 1;
    }
    false
}

fn reversed(list: Vec<ProbedConnector>) -> (result: Vec<ProbedConnector>)
    ensures
        result.len() == list.len(),
        forall|k: int| 0 <= k < list.len() ==> #[trigger] result@[k] == list@[list.len() - 1 - k],
{
    let mut rest = list;
    let mut result: Vec<ProbedConnector> = Vec::new();
    while rest.len() > 0
        invariant
            result.len() + rest.len() == list.len(),
            forall|k: int| 0 <= k < rest.len() ==> #[trigger] rest@[k] == list@[k],
            forall|k: int|
                0 <= k < result.len() ==> #[trigger] result@[k] == list@[list.len() - 1 - k],
        decreases rest.len(),
    {
        assert(rest@[rest.len() - 1] == list@[rest.len() - 1]);
        match rest.pop() {
            Some(item) => result.push(item),
            None => {},
        }
    }
    result
}

// ---- the frame timer ---------------------------------------------------------------------

/// How often a lost native scanout is retried, in nanoseconds.
pub const RECOVERY_INTERVAL_NS: u64 = 500_000_000;

/// How long a lost native scanout may stay unrecovered, in nanoseconds.
pub const RECOVERY_BUDGET_NS: u64 = 20_000_000_000;

/// Consecutive failed frames tolerated before the session gives up.
pub const MAX_RENDER_FAILURES: u32 = 60;

/// Milliseconds until the frame timer fires again.
pub const FRAME_INTERVAL_MS: u64 = 16;

/// What follows a recovery attempt.
#[derive(Debug, Clone, Copy, PartialEq, Eq, Structural)]
pub enum RecoveryOutcome {
    /// Scanout is back: draw a frame.
    Redraw,
    /// Try again later.
    Wait,
    /// The budget is spent: the session fails.
    GiveUp,
}

/// What follows a frame that was drawn.
#[derive(Debug, Clone, Copy, PartialEq, Eq, Structural)]
pub enum FrameOutcome {
    Shown,
    /// Release the surface, so that the recovery builds it anew.
    Release,
    /// Too many frames failed in a row: the session fails.
    GiveUp,
}

/// The state of the frame timer. Times are nanoseconds of a clock that never
/// runs back.
#[derive(Debug, Clone, Copy, PartialEq, Eq)]
pub struct FrameTimer {
    pub output_size: (i32, i32),
    pub delivered_presentations: u64,
    pub last_recovery_attempt: u64,
    pub recovering_since: Option<u64>,
    pub render_failures: u32,
}

pub open spec fn elapsed(now: u64, since: u64) -> int {
    if now >= since {
        now - since
    } else {
        0
    }
}

impl FrameTimer {
    pub open spec fn wf(self) -> bool {
        self.render_failures < MAX_RENDER_FAILURES
    }

    pub fn new(output_size: (i32, i32), presented: u64, now: u64) -> (timer: Self)
        ensures
            timer == (FrameTimer {
                output_size,
                delivered_presentations: presented,
                last_recovery_attempt: now,
                recovering_since: None,
                render_failures: 0,
            }),
            timer.wf(),
    {
        FrameTimer {
            output_size,
            delivered_presentations: presented,
            last_recovery_attempt: now,
            recovering_since: None,
            render_failures: 0,
        }
    }

    /// Whether a count of presented frames holds one that was not answered yet.
    pub open spec fn owes_callbacks(self, presented: u64) -> bool {
        presented > self.delivered_presentations
    }

    /// The timer once the callbacks of so many frames were delivered.
    pub open spec fn after_callbacks(self, presented: u64) -> Self {
        FrameTimer {
            delivered_presentations: if self.owes_callbacks(presented) {
                presented
            } else {
                self.delivered_presentations
            },
            ..self
        }
    }

    /// Whether frame callbacks are due: only when a frame was presented that
    /// was not answered yet, never for one that is merely queued.
    pub fn presented(&mut self, presented: u64) -> (deliver: bool)
        ensures
            deliver == old(self).owes_callbacks(presented),
            *final(self) == old(self).after_callbacks(presented),
    {
        if presented > self.delivered_presentations {
            self.delivered_presentations = presented;
            true
        } else {
            false
        }
    }

    pub open spec fn attempts(self, status: NativeDrmStatus, now: u64) -> bool {
        status != NativeDrmStatus::Active && elapsed(now, self.last_recovery_attempt)
            >= RECOVERY_INTERVAL_NS
    }

    pub open spec fn after_status(self, status: NativeDrmStatus, now: u64) -> Self {
        if status == NativeDrmStatus::Active {
            FrameTimer { recovering_since: None, ..self }
        } else if self.attempts(status, now) {
            FrameTimer { last_recovery_attempt: now, ..self }
        } else {
            self
        }
    }

    /// Whether a recovery is to be attempted at this tick.
    pub fn recovery_due(&mut self, status: NativeDrmStatus, now: u64) -> (attempt: bool)
        ensures
            attempt == old(self).attempts(status, now),
            *final(self) == old(self).after_status(status, now),
    {
        if status == NativeDrmStatus::Active {
            self.recovering_since = None;
            return false;
        }
        if now.saturating_sub(self.last_recovery_attempt) >= RECOVERY_INTERVAL_NS {
            self.last_recovery_attempt = now;
            true
        } else {
            false
        }
    }

    /// When the scanout that is being recovered was lost.
    pub open spec fn lost_since(self, now: u64) -> u64 {
        match self.recovering_since {
            Some(since) => since,
            None => now,
        }
    }

    pub open spec fn outcome(self, recovered: bool, status: NativeDrmStatus, now: u64) -> RecoveryOutcome {
        if recovered {
            RecoveryOutcome::Redraw
        } else if status != NativeDrmStatus::Paused && elapsed(now, self.lost_since(now))
            >= RECOVERY_BUDGET_NS {
            RecoveryOutcome::GiveUp
        } else {
            RecoveryOutcome::Wait
        }
    }

    /// The timer after a recovery attempt: the loss is counted from the first
    /// attempt that failed, and a paused session neither starts nor ends it.
    pub open spec fn after_attempt(self, recovered: bool, status: NativeDrmStatus, now: u64) -> Self {
        FrameTimer {
            recovering_since: if recovered {
                None
            } else if status == NativeDrmStatus::Paused {
                self.recovering_since
            } else {
                Some(self.lost_since(now))
            },
            ..self
        }
    }

    /// Takes the result of a recovery attempt and the status after it. A
    /// paused session waits without spending its budget.
    pub fn attempted(&mut self, recovered: bool, status: NativeDrmStatus, now: u64) -> (outcome:
        RecoveryOutcome)
        ensures
            outcome == old(self).outcome(recovered, status, now),
            *final(self) == old(self).after_attempt(recovered, status, now),
    {
        if recovered {
            self.recovering_since = None;
            return RecoveryOutcome::Redraw;
        }
        if status == NativeDrmStatus::Paused {
            return RecoveryOutcome::Wait;
        }
        let since: u64 = match self.recovering_since {
            Some(since) => since,
            None => now,
        };
        self.recovering_since = Some(since);
        if now.saturating_sub(since) >= RECOVERY_BUDGET_NS {
            RecoveryOutcome::GiveUp
        } else {
            RecoveryOutcome::Wait
        }
    }

    /// Why the session fails once its budget is spent.
    pub fn budget_error() -> (error: NativeDrmError)
        ensures
            error@ == error_model(
                NativeDrmErrorKind::Drm,
                "native scanout could not be restored within the recovery budget"@,
            ),
    {
        NativeDrmError::new(
            NativeDrmErrorKind::Drm,
            "native scanout could not be restored within the recovery budget".to_owned(),
        )
    }

    /// Whether a frame is to be drawn at this tick.
    pub fn render_due(can_render: bool, redraw_needed: bool, output_blank: bool) -> (due: bool)
        ensures
            due == (can_render && redraw_needed && !output_blank),
    {
        can_render && redraw_needed && !output_blank
    }

    /// The size of the desktop for a scanout: that of its mode, or the one that
    /// it has.
    pub open spec fn size_for(self, scanout: Option<NativeOutputConfig>) -> (i32, i32) {
        match scanout {
            Some(config) => (config.mode.width as i32, config.mode.height as i32),
            None => self.output_size,
        }
    }

    /// Takes the size of the scanout. True when it differs from the size that
    /// the desktop has.
    pub fn resized(&mut self, scanout: Option<NativeOutputConfig>) -> (changed: bool)
        ensures
            changed == (old(self).size_for(scanout) != old(self).output_size),
            *final(self) == (FrameTimer { output_size: old(self).size_for(scanout), ..*old(self) }),
    {
        match scanout {
            Some(config) => {
                let width: i32 = config.mode.width as i32;
                let height: i32 = config.mode.height as i32;
                if width != self.output_size.0 || height != self.output_size.1 {
                    self.output_size = (width, height);
                    true
                } else {
                    false
                }
            },
            None => false,
        }
    }

    /// What follows a frame that was shown, or that failed.
    pub open spec fn frame_outcome(self, succeeded: bool) -> FrameOutcome {
        if succeeded {
            FrameOutcome::Shown
        } else if self.render_failures + 1 >= MAX_RENDER_FAILURES {
            FrameOutcome::GiveUp
        } else {
            FrameOutcome::Release
        }
    }

    /// The timer after a frame: failures in a row are counted.
    pub open spec fn after_frame(self, succeeded: bool) -> Self {
        FrameTimer {
            render_failures: if succeeded {
                0
            } else {
                (self.render_failures + 1) as u32
            },
            ..self
        }
    }

    /// Takes the result of drawing a frame. A single failed frame is not a
    /// dead GPU.
    pub fn rendered(&mut self, succeeded: bool) -> (outcome: FrameOutcome)
        requires
            old(self).wf(),
        ensures
            outcome == old(self).frame_outcome(succeeded),
            *final(self) == old(self).after_frame(succeeded),
            outcome != FrameOutcome::GiveUp ==> final(self).wf(),
    {
        if succeeded {
            self.render_failures = 0;
            return FrameOutcome::Shown;
        }
        self.render_failures = self.render_failures + 1;
        if self.render_failures >= MAX_RENDER_FAILURES {
            FrameOutcome::GiveUp
        } else {
            FrameOutcome::Release
        }
    }
}

// ---- laws ------------------------------------------------------------------------------

/// A recovery never fails a session: whatever a device call returns, the
/// session stays alive for another try.
pub proof fn recovery_never_fails_the_session(
    backend: BackendState,
    recovery: Recovery,
    event: DeviceEvent,
)
    requires
        backend.status != NativeDrmStatus::Failed,
    ensures
        backend.after_call(recovery, event).0.status != NativeDrmStatus::Failed,
{
}

/// A recovery that reports success has left the session active, with a
/// pipeline that holds a surface for the scanout in use.
pub proof fn recovered_sessions_can_scan_out(
    backend: BackendState,
    recovery: Recovery,
    event: DeviceEvent,
)
    requires
        backend.after_call(recovery, event).1 == DeviceStep::Done(true),
        event is Reactivated || event is Built,
        event is Reactivated ==> backend.pipeline is Some,
        event is Built ==> backend.untried.len() > 0,
    ensures
        ({
            let after = backend.after_call(recovery, event).0;
            &&& after.status == NativeDrmStatus::Active
            &&& after.pipeline matches Some(pipeline) && pipeline.surface_active && after.scanout
                == Some(pipeline.output)
        }),
{
}

/// Whether all outcomes up to the `k`-th are errors.
pub open spec fn fails_before(outcomes: Seq<Result<(), String>>, k: int) -> bool {
    forall|i: int| 0 <= i < k ==> (#[trigger] outcomes[i]) is Err
}

proof fn builds_in_order(
    backend: BackendState,
    recovery: Recovery,
    outcomes: Seq<Result<(), String>>,
    k: int,
)
    requires
        0 <= k < backend.untried.len(),
        k < outcomes.len(),
        fails_before(outcomes, k),
    ensures
        outcomes[k] is Ok ==> backend.after_builds(recovery, outcomes) == (
            backend.restored(backend.untried[k]),
            DeviceStep::Done(true),
        ),
        outcomes[k] is Err && k + 1 == backend.untried.len() ==> backend.after_builds(
            recovery,
            outcomes,
        ) == (
            (BackendState { untried: Seq::empty(), ..backend }).setback(
                recovery,
                error_model(NativeDrmErrorKind::Drm, restore_text(outcomes[k]->Err_0@)),
            ),
            DeviceStep::Done(false),
        ),
    decreases k,
{
    let (next, step) = backend.after_call(recovery, DeviceEvent::Built(outcomes[0]));
    if k == 0 {
        assert(backend.passed_over().untried.len() == backend.untried.len() - 1);
        if backend.untried.len() == 1 {
            assert(backend.passed_over().untried =~= Seq::empty());
        }
    } else {
        assert(outcomes[0] is Err);
        let rest = outcomes.drop_first();
        assert forall|i: int| 0 <= i < k - 1 implies (#[trigger] rest[i]) is Err by {
            assert(rest[i] == outcomes[i + 1]);
        }
        builds_in_order(next, recovery, rest, k - 1);
        assert(next.untried[k - 1] == backend.untried[k]);
        assert(rest[k - 1] == outcomes[k]);
    }
}

/// The candidates are tried in the order in which they were read: where the
/// pipeline in use is none of them, the first that allows a pipeline is scanned
/// out, whatever the outcomes behind it.
pub proof fn the_first_candidate_that_builds_is_scanned_out(
    backend: BackendState,
    recovery: Recovery,
    candidates: Vec<NativeOutputConfig>,
    outcomes: Seq<Result<(), String>>,
    k: int,
)
    requires
        backend.pipeline matches Some(pipeline) ==> !candidates@.contains(pipeline.output),
        0 <= k < candidates@.len(),
        k < outcomes.len(),
        fails_before(outcomes, k),
        outcomes[k] is Ok,
    ensures
        ({
            let (begun, first) = backend.after_call(
                recovery,
                DeviceEvent::Candidates(Ok(Some(candidates))),
            );
            let (after, last) = begun.after_builds(recovery, outcomes);
            &&& first == DeviceStep::Build(candidates@[0])
            &&& last == DeviceStep::Done(true)
            &&& after.scanout == Some(candidates@[k])
            &&& after.pipeline == Some(NativeFramePipeline::fresh(candidates@[k]))
            &&& after.status == NativeDrmStatus::Active
            &&& after.last_error is None
        }),
{
    let begun = backend.after_call(recovery, DeviceEvent::Candidates(Ok(Some(candidates)))).0;
    builds_in_order(begun, recovery, outcomes, k);
}

/// Where no candidate allows a pipeline, the error of the last one is told, and
/// nothing new is scanned out.
pub proof fn the_last_error_is_told_when_no_candidate_builds(
    backend: BackendState,
    recovery: Recovery,
    candidates: Vec<NativeOutputConfig>,
    outcomes: Seq<Result<(), String>>,
)
    requires
        backend.pipeline matches Some(pipeline) ==> !candidates@.contains(pipeline.output),
        candidates@.len() > 0,
        outcomes.len() == candidates@.len(),
        fails_before(outcomes, outcomes.len() as int),
    ensures
        ({
            let begun = backend.after_call(
                recovery,
                DeviceEvent::Candidates(Ok(Some(candidates))),
            ).0;
            let (after, last) = begun.after_builds(recovery, outcomes);
            &&& last == DeviceStep::Done(false)
            &&& after.scanout == backend.scanout
            &&& after.pipeline is None
            &&& after.last_error == Some(
                error_model(
                    NativeDrmErrorKind::Drm,
                    restore_text(outcomes.last()->Err_0@),
                ).text(),
            )
        }),
{
    let begun = backend.after_call(recovery, DeviceEvent::Candidates(Ok(Some(candidates)))).0;
    builds_in_order(begun, recovery, outcomes, outcomes.len() - 1);
}

/// Only a candidate that was read is scanned out: what a call puts in place of
/// the scanout in use is the output of the pipeline in use, or one of the
/// candidates that are left, and these are candidates that were read.
pub proof fn a_new_scanout_is_one_of_the_candidates(
    backend: BackendState,
    recovery: Recovery,
    event: DeviceEvent,
    config: NativeOutputConfig,
)
    ensures
        ({
            let (after, step) = backend.after_call(recovery, event);
            &&& after.scanout == Some(config) && backend.scanout != Some(config)
                ==> backend.untried.contains(config) || (backend.pipeline matches Some(pipeline)
                && pipeline.output == config)
            &&& after.untried.contains(config) ==> backend.untried.contains(config) || (
            event matches DeviceEvent::Candidates(Ok(Some(candidates))) && candidates@.contains(
                config,
            ))
            &&& step == DeviceStep::Build(config) ==> after.untried.len() > 0 && after.untried[0]
                == config
        }),
{
    let after = backend.after_call(recovery, event).0;
    if backend.untried.len() > 0 {
        assert(backend.untried.contains(backend.untried[0]));
    }
    if after.untried.contains(config) {
        let i = choose|i: int| 0 <= i < after.untried.len() && after.untried[i] == config;
        if event is Built {
            assert(backend.untried[i + 1] == config || backend.untried[i] == config);
        }
    }
}

/// A paused session keeps no output and no surface, and is not recovered by
/// the frame timer: its seat brings it back.
pub proof fn paused_sessions_wait_for_their_seat(backend: BackendState, device_active: bool)
    ensures
        backend.paused().outputs.len() == 0,
        backend.paused().pipeline matches Some(pipeline) ==> !pipeline.surface_active,
        backend.paused().first_step(Recovery::Retry, device_active) == DeviceStep::Done(false),
        backend.paused().first_step(Recovery::Activation, device_active) == DeviceStep::Activate,
{
}

/// Recovery is bounded: once scanout has been lost for the whole budget, the
/// next attempt that fails ends the session, unless it is paused.
pub proof fn recovery_is_bounded(timer: FrameTimer, status: NativeDrmStatus, now: u64, since: u64)
    requires
        timer.recovering_since == Some(since),
        status != NativeDrmStatus::Paused,
        now >= since + RECOVERY_BUDGET_NS,
    ensures
        timer.outcome(false, status, now) == RecoveryOutcome::GiveUp,
{
}

/// A session that lost its scanout, or has no output, is never given up before
/// a device call: a retry activates the device where it is not active, reads
/// the connectors where a probe is owed, and the candidates otherwise. An
/// active session needs no call, and a failed one gets none. A seat that became
/// active has its device activated, and a hotplug reads the connectors.
pub proof fn recoveries_begin_with_a_device_call(backend: BackendState, device_active: bool)
    ensures
        backend.status == NativeDrmStatus::Recovering || backend.status
            == NativeDrmStatus::NoOutputs ==> {
            let step = backend.first_step(Recovery::Retry, device_active);
            &&& step == DeviceStep::Activate <==> !device_active
            &&& step == DeviceStep::Probe <==> device_active && backend.needs_reprobe
            &&& step == DeviceStep::ReadCandidates <==> device_active && !backend.needs_reprobe
        },
        backend.first_step(Recovery::Retry, device_active) == DeviceStep::Done(true)
            <==> backend.status == NativeDrmStatus::Active,
        backend.status == NativeDrmStatus::Failed ==> backend.first_step(
            Recovery::Retry,
            device_active,
        ) == DeviceStep::Done(false),
        backend.first_step(Recovery::Activation, device_active) == DeviceStep::Activate,
        backend.first_step(Recovery::Hotplug, device_active) == DeviceStep::Probe,
{
}

/// A call that succeeded, as an answer to a step: the connectors and the
/// candidates are what the device has.
pub open spec fn success_of(
    step: DeviceStep,
    probe: Vec<ProbedConnector>,
    candidates: Vec<NativeOutputConfig>,
) -> DeviceEvent {
    match step {
        DeviceStep::Activate => DeviceEvent::Activated(Ok(())),
        DeviceStep::Probe => DeviceEvent::Probed(Ok(Some(probe))),
        DeviceStep::ReadCandidates => DeviceEvent::Candidates(Ok(Some(candidates))),
        DeviceStep::Reactivate => DeviceEvent::Reactivated(Ok(())),
        _ => DeviceEvent::Built(Ok(())),
    }
}

/// Where a recovery stands after at most `calls` further calls that succeed.
pub open spec fn after_successes(
    backend: BackendState,
    recovery: Recovery,
    step: DeviceStep,
    probe: Vec<ProbedConnector>,
    candidates: Vec<NativeOutputConfig>,
    calls: nat,
) -> (BackendState, DeviceStep)
    decreases calls,
{
    if calls == 0 || step is Done {
        (backend, step)
    } else {
        let (next, told) = backend.after_call(recovery, success_of(step, probe, candidates));
        after_successes(next, recovery, told, probe, candidates, (calls - 1) as nat)
    }
}

/// A recovery whose calls succeed brings the screen back, within four calls:
/// whatever state the session is in, as long as it is neither failed nor
/// paused, and whichever event set the recovery in motion. It ends active, and
/// scans out one of the candidates that the device has, with a surface for it.
pub proof fn recoveries_bring_the_screen_back(
    backend: BackendState,
    recovery: Recovery,
    device_active: bool,
    probe: Vec<ProbedConnector>,
    candidates: Vec<NativeOutputConfig>,
)
    requires
        recovery == Recovery::Retry ==> backend.status == NativeDrmStatus::Recovering
            || backend.status == NativeDrmStatus::NoOutputs,
        candidates@.len() > 0,
    ensures
        ({
            let first = backend.first_step(recovery, device_active);
            let (after, last) = after_successes(
                backend,
                recovery,
                first,
                probe,
                candidates,
                4,
            );
            &&& last == DeviceStep::Done(true)
            &&& after.status == NativeDrmStatus::Active
            &&& after.scanout matches Some(config) && candidates@.contains(config) && (
            after.pipeline matches Some(pipeline) && pipeline.output == config
                && pipeline.surface_active)
        }),
{
    reveal_with_fuel(after_successes, 5);
    assert(candidates@.contains(candidates@[0]));
}

/// The calls of a recovery come in their order: the device is activated before
/// its connectors are read, and these before the candidates; with candidates
/// the surface in use is created again where its output is still one of them,
/// and a pipeline for the first of them is created otherwise. Without
/// candidates, or without an active device, the recovery ends.
pub proof fn recovery_calls_come_in_order(
    backend: BackendState,
    recovery: Recovery,
    probe: Vec<ProbedConnector>,
    candidates: Vec<NativeOutputConfig>,
)
    ensures
        backend.after_call(recovery, DeviceEvent::Activated(Ok(()))).1 == DeviceStep::Probe,
        backend.after_call(recovery, DeviceEvent::Probed(Ok(Some(probe)))).1
            == DeviceStep::ReadCandidates,
        backend.after_call(recovery, DeviceEvent::Probed(Ok(None))).1
            == DeviceStep::ReadCandidates,
        ({
            let step = backend.after_call(
                recovery,
                DeviceEvent::Candidates(Ok(Some(candidates))),
            ).1;
            let kept = backend.pipeline matches Some(pipeline) && candidates@.contains(
                pipeline.output,
            );
            &&& candidates@.len() == 0 ==> step == DeviceStep::Done(false)
            &&& step == DeviceStep::Reactivate <==> kept
            &&& candidates@.len() > 0 && !kept ==> step == DeviceStep::Build(candidates@[0])
        }),
        candidates@.len() == 0 ==> {
            let after = backend.after_call(
                recovery,
                DeviceEvent::Candidates(Ok(Some(candidates))),
            ).0;
            &&& after.status == NativeDrmStatus::NoOutputs
            &&& after.scanout is None
            &&& after.pipeline matches Some(pipeline) ==> !pipeline.surface_active
        },
{
    match backend.pipeline {
        Some(pipeline) => {
            if candidates@.contains(pipeline.output) {
                assert(candidates@.len() > 0);
            }
        },
        None => {},
    }
}

/// A device call that fails ends the recovery without success and tells its
/// error; the session keeps its scanout and its outputs. A retry leaves the
/// status for the next one, and any other recovery leaves the session
/// recovering, with a probe owed.
pub proof fn failed_calls_are_told(backend: BackendState, recovery: Recovery, event: DeviceEvent)
    requires
        event matches DeviceEvent::Activated(Err(_)) || event matches DeviceEvent::Probed(Err(_))
            || event matches DeviceEvent::Candidates(Err(_))
            || event matches DeviceEvent::Reactivated(Err(_)),
    ensures
        ({
            let (after, step) = backend.after_call(recovery, event);
            let error = match event {
                DeviceEvent::Activated(Err(error)) => error@,
                DeviceEvent::Probed(Err(error)) => error@,
                DeviceEvent::Candidates(Err(error)) => error@,
                DeviceEvent::Reactivated(Err(error)) => error@,
                _ => Seq::empty(),
            };
            &&& step == DeviceStep::Done(false)
            &&& after.last_error matches Some(told) && told.len() >= error.len() && told.subrange(
                told.len() - error.len(),
                told.len() as int,
            ) == error
            &&& after.scanout == backend.scanout && after.outputs == backend.outputs
                && after.pipeline == backend.pipeline
            &&& recovery == Recovery::Retry ==> after.status == backend.status
                && after.needs_reprobe == backend.needs_reprobe
            &&& recovery != Recovery::Retry ==> after.status == NativeDrmStatus::Recovering
                && after.needs_reprobe
        }),
{
    let (after, _) = backend.after_call(recovery, event);
    let error = match event {
        DeviceEvent::Activated(Err(error)) => error@,
        DeviceEvent::Probed(Err(error)) => error@,
        DeviceEvent::Candidates(Err(error)) => error@,
        DeviceEvent::Reactivated(Err(error)) => error@,
        _ => Seq::empty(),
    };
    let told = after.last_error->Some_0;
    assert(told.subrange(told.len() - error.len(), told.len() as int) =~= error);
}

proof fn probes_tell_what_is_connected(probe: Seq<ProbedConnector>, output: NativeOutput)
    ensures
        connected_outputs(probe).contains(output) <==> probe.contains(
            ProbedConnector::Connected(output),
        ),
        connected_outputs(probe).len() <= probe.len(),
    decreases probe.len(),
{
    if probe.len() > 0 {
        let rest = probe.drop_last();
        probes_tell_what_is_connected(rest, output);
        let before = connected_outputs(rest);
        let all = connected_outputs(probe);
        let wanted = ProbedConnector::Connected(output);
        assert(probe[probe.len() - 1] == probe.last());
        if rest.contains(wanted) {
            let k = choose|k: int| 0 <= k < rest.len() && rest[k] == wanted;
            assert(probe[k] == wanted);
        }
        if probe.contains(wanted) && !rest.contains(wanted) {
            let k = choose|k: int| 0 <= k < probe.len() && probe[k] == wanted;
            if k < rest.len() {
                assert(rest[k] == wanted);
            }
            assert(all[all.len() - 1] == output);
        }
        if before.contains(output) {
            let k = choose|k: int| 0 <= k < before.len() && before[k] == output;
            assert(all[k] == output);
        }
        if all.contains(output) && !before.contains(output) {
            let k = choose|k: int| 0 <= k < all.len() && all[k] == output;
            if k < before.len() {
                assert(before[k] == output);
            }
        }
    }
}

proof fn faults_are_first(probe: Seq<ProbedConnector>)
    ensures
        first_fault(probe) is None <==> forall|i: int|
            0 <= i < probe.len() ==> !((#[trigger] probe[i]) is Failed),
        first_fault(probe) matches Some(text) ==> exists|i: int|
            {
                &&& 0 <= i < probe.len()
                &&& (#[trigger] probe[i]) matches ProbedConnector::Failed(error) && error@ == text
                &&& forall|j: int| 0 <= j < i ==> !((#[trigger] probe[j]) is Failed)
            },
    decreases probe.len(),
{
    if probe.len() > 0 {
        let rest = probe.drop_last();
        faults_are_first(rest);
        assert(probe[probe.len() - 1] == probe.last());
        match first_fault(rest) {
            Some(text) => {
                let i = choose|i: int|
                    {
                        &&& 0 <= i < rest.len()
                        &&& (#[trigger] rest[i]) matches ProbedConnector::Failed(error) && error@
                            == text
                        &&& forall|j: int| 0 <= j < i ==> !((#[trigger] rest[j]) is Failed)
                    };
                assert(probe[i] == rest[i]);
                assert forall|j: int| 0 <= j < i implies !((#[trigger] probe[j]) is Failed) by {
                    assert(probe[j] == rest[j]);
                }
            },
            None => {
                assert forall|j: int| 0 <= j < probe.len() - 1 implies !((
                #[trigger] probe[j]) is Failed) by {
                    assert(rest[j] == probe[j]);
                }
            },
        }
    }
}

/// A probe tells exactly the connected outputs, and the first error that a
/// connector gave. The session is active where one of them has a mode, and
/// without outputs otherwise; no further probe is owed.
pub proof fn probes_tell_the_outputs(
    backend: BackendState,
    probe: Seq<ProbedConnector>,
    output: NativeOutput,
)
    ensures
        ({
            let after = backend.probed(probe);
            &&& after.outputs.contains(output) <==> probe.contains(
                ProbedConnector::Connected(output),
            )
            &&& after.outputs.contains(output) && output.modes@.len() > 0 ==> after.status
                == NativeDrmStatus::Active
            &&& (forall|i: int|
                0 <= i < after.outputs.len() ==> (#[trigger] after.outputs[i]).modes@.len() == 0)
                ==> after.status == NativeDrmStatus::NoOutputs
            &&& after.last_error is None <==> forall|i: int|
                0 <= i < probe.len() ==> !((#[trigger] probe[i]) is Failed)
            &&& after.last_error matches Some(text) ==> exists|i: int|
                0 <= i < probe.len() && ((#[trigger] probe[i]) matches ProbedConnector::Failed(
                    error,
                ) && error@ == text)
            &&& !after.needs_reprobe
            &&& after.scanout == backend.scanout && after.pipeline == backend.pipeline
        }),
{
    probes_tell_what_is_connected(probe, output);
    faults_are_first(probe);
    let after = backend.probed(probe);
    if after.outputs.contains(output) && output.modes@.len() > 0 {
        let k = choose|k: int| 0 <= k < after.outputs.len() && after.outputs[k] == output;
        assert(after.outputs[k].modes@.len() > 0);
    }
}

/// A lost scanout keeps the session alive: it is recovering, owes a probe and
/// tells the error; a failure ends it. Neither touches the scanout in use.
pub proof fn losses_recover_and_failures_end(backend: BackendState, error: ErrorModel)
    ensures
        backend.recovering(error).status == NativeDrmStatus::Recovering,
        backend.recovering(error).needs_reprobe,
        backend.recovering(error).last_error == Some(error.text()),
        backend.recovering(error).scanout == backend.scanout,
        backend.recovering(error).pipeline == backend.pipeline,
        backend.recovering(error).outputs == backend.outputs,
        backend.failed(error).status == NativeDrmStatus::Failed,
        backend.failed(error).last_error == Some(error.text()),
        backend.failed(error).scanout == backend.scanout,
        error.text().len() >= error.detail.len(),
        error.text().subrange(
            error.text().len() - error.detail.len(),
            error.text().len() as int,
        ) == error.detail,
{
    assert(error.text().subrange(
        error.text().len() - error.detail.len(),
        error.text().len() as int,
    ) =~= error.detail);
}

/// A hotplug is counted and owes a probe; where the session's own device was
/// removed the session fails, without outputs and without a surface, and
/// otherwise nothing else changes.
pub proof fn hotplugs_are_counted(backend: BackendState)
    ensures
        backend.hotplug_generation < u64::MAX ==> backend.hotplugged(false).hotplug_generation
            == backend.hotplug_generation + 1 && backend.hotplugged(true).hotplug_generation
            == backend.hotplug_generation + 1,
        backend.hotplugged(false).needs_reprobe,
        backend.hotplugged(false).status == backend.status,
        backend.hotplugged(false).outputs == backend.outputs,
        backend.hotplugged(false).scanout == backend.scanout,
        backend.hotplugged(false).pipeline == backend.pipeline,
        backend.hotplugged(true).status == NativeDrmStatus::Failed,
        backend.hotplugged(true).outputs.len() == 0,
        backend.hotplugged(true).pipeline matches Some(pipeline) ==> !pipeline.surface_active,
        backend.hotplugged(true).last_error is Some,
{
}

/// A paused session is paused: without outputs, with its surface released, and
/// with the scanout that it is to come back to. Releasing the surface alone
/// keeps everything else.
pub proof fn pauses_release_the_surface(backend: BackendState)
    ensures
        backend.paused().status == NativeDrmStatus::Paused,
        backend.paused().outputs.len() == 0,
        backend.paused().scanout == backend.scanout,
        backend.pipeline matches Some(before) ==> (backend.paused().pipeline matches Some(after)
            && !after.surface_active && !after.frame_pending && after.output == before.output
            && after.presented == before.presented),
        backend.released().status == backend.status,
        backend.released().outputs == backend.outputs,
        backend.released().pipeline == backend.paused().pipeline,
{
}

/// Startup is possible exactly where the runtime directory is set, is a
/// directory, can be written, and has a free socket name.
pub proof fn sessions_start_where_a_socket_is_free(
    runtime_dir: Option<Seq<char>>,
    facts: RuntimeDirFacts,
)
    ensures
        preflight_fault(runtime_dir, facts) is None <==> {
            &&& runtime_dir is Some
            &&& facts.is_directory
            &&& facts.write_error is None
            &&& exists|i: int| 0 <= i < 32 && !(#[trigger] facts.sockets_taken@[i])
        },
        preflight_fault(runtime_dir, facts) matches Some(fault) ==> fault.kind
            == NativeDrmErrorKind::NotReady,
{
    assert(facts.sockets_taken@.len() == 32);
    if !all_taken(facts.sockets_taken@) {
        let i = choose|i: int| 0 <= i < facts.sockets_taken@.len() && !facts.sockets_taken@[i];
        assert(!facts.sockets_taken@[i]);
    }
}

/// A device that is asked for is opened where its path is absolute, and
/// refused otherwise, whatever the seat has; without one it is the primary GPU
/// of the seat. Only a seat, a probe or an output that is not there yet can
/// still come.
pub proof fn the_asked_device_wins(
    requested: Option<Seq<char>>,
    primary: Result<Option<Seq<char>>, Seq<char>>,
    seat: Seq<char>,
    error: ErrorModel,
)
    ensures
        requested matches Some(path) ==> (is_absolute(path) ==> device_choice(
            requested,
            primary,
            seat,
        ) == Ok::<Seq<char>, ErrorModel>(path)) && (!is_absolute(path) ==> device_choice(
            requested,
            primary,
            seat,
        ) is Err),
        requested is None ==> (primary matches Ok(Some(path)) ==> device_choice(
            requested,
            primary,
            seat,
        ) == Ok::<Seq<char>, ErrorModel>(path)) && (!(primary matches Ok(Some(_)))
            ==> device_choice(requested, primary, seat) is Err),
        seat_fault(seat, true) is None && seat_fault(seat, false) is Some,
        error.transient() <==> error.kind == NativeDrmErrorKind::Seat || error.kind
            == NativeDrmErrorKind::Drm || error.kind == NativeDrmErrorKind::NoOutput,
{
}

/// A retry is due where the session is not active and half a second has passed
/// since the last one; the budget of a lost scanout is twenty seconds from the
/// first failed retry on, and a paused session does not spend it.
pub proof fn retries_keep_their_times(
    timer: FrameTimer,
    status: NativeDrmStatus,
    recovered: bool,
    now: u64,
)
    ensures
        timer.attempts(status, now) <==> status != NativeDrmStatus::Active && now
            >= timer.last_recovery_attempt + 500_000_000,
        timer.attempts(status, now) ==> timer.after_status(status, now).last_recovery_attempt
            == now,
        !timer.attempts(status, now) ==> timer.after_status(status, now).last_recovery_attempt
            == timer.last_recovery_attempt,
        status == NativeDrmStatus::Active ==> timer.after_status(
            status,
            now,
        ).recovering_since is None,
        timer.outcome(recovered, status, now) == RecoveryOutcome::Redraw <==> recovered,
        timer.outcome(recovered, status, now) == RecoveryOutcome::GiveUp <==> !recovered && status
            != NativeDrmStatus::Paused && (timer.recovering_since matches Some(since) && now
            >= since + 20_000_000_000),
        timer.after_status(status, now).render_failures == timer.render_failures,
        timer.after_status(status, now).output_size == timer.output_size,
{
}

/// A session ends with an error exactly where it failed, and the error is the
/// last one that was told.
pub proof fn failed_sessions_end_with_their_error(backend: NativeDrmBackend)
    ensures
        backend.ending() is Some <==> backend.state().status == NativeDrmStatus::Failed,
        backend.state().status == NativeDrmStatus::Failed ==> (
        backend.state().last_error matches Some(error) ==> (backend.ending() matches Some(told)
            && told.detail == error && told.kind == NativeDrmErrorKind::Drm)),
{
}

/// A device that was activated owes a probe, and the session is recovering, or
/// as it was where it was retried. A device that turns out not to be active
/// pauses the session, and then nothing more is done. Neither touches the
/// outputs, the scanout or the surface.
pub proof fn activations_owe_a_probe(backend: BackendState, recovery: Recovery)
    ensures
        ({
            let (active, next) = backend.after_call(recovery, DeviceEvent::Activated(Ok(())));
            let (idle, then_read) = backend.after_call(recovery, DeviceEvent::Probed(Ok(None)));
            let (same, done) = backend.after_call(recovery, DeviceEvent::Candidates(Ok(None)));
            &&& next == DeviceStep::Probe && active.needs_reprobe
            &&& recovery == Recovery::Retry ==> active.status == backend.status
            &&& recovery != Recovery::Retry ==> active.status == NativeDrmStatus::Recovering
            &&& active.outputs == backend.outputs && active.scanout == backend.scanout
                && active.pipeline == backend.pipeline && active.last_error == backend.last_error
            &&& idle.status == NativeDrmStatus::Paused && then_read == DeviceStep::ReadCandidates
            &&& idle.outputs == backend.outputs && idle.scanout == backend.scanout
                && idle.pipeline == backend.pipeline
            &&& same == backend
            &&& done == DeviceStep::Done(true) <==> backend.status == NativeDrmStatus::Active
            &&& done is Done
        }),
{
}

/// A surface that was created again is the one that was in use: its output is
/// scanned out, its counts stay, and the session is active.
pub proof fn reactivation_keeps_the_pipeline(
    backend: BackendState,
    recovery: Recovery,
    pipeline: NativeFramePipeline,
)
    requires
        backend.pipeline == Some(pipeline),
    ensures
        ({
            let (after, step) = backend.after_call(recovery, DeviceEvent::Reactivated(Ok(())));
            &&& step == DeviceStep::Done(true)
            &&& after.status == NativeDrmStatus::Active
            &&& after.scanout == Some(pipeline.output)
            &&& after.pipeline matches Some(now) && now.output == pipeline.output
                && now.surface_active && now.presented == pipeline.presented && now.queued
                == pipeline.queued
            &&& after.outputs == backend.outputs && after.needs_reprobe == backend.needs_reprobe
        }),
{
}

/// A candidate that could not be built is passed over for the next one, and the
/// session otherwise stays as it was; the last one ends the recovery.
pub proof fn failed_candidates_are_passed_over(
    backend: BackendState,
    recovery: Recovery,
    error: String,
)
    requires
        backend.untried.len() > 0,
    ensures
        ({
            let (after, step) = backend.after_call(recovery, DeviceEvent::Built(Err(error)));
            &&& after.untried == backend.untried.drop_first()
            &&& backend.untried.len() > 1 ==> step == DeviceStep::Build(backend.untried[1])
                && after.status == backend.status && after.last_error == backend.last_error
                && after.scanout == backend.scanout
            &&& backend.untried.len() == 1 ==> step == DeviceStep::Done(false) && after.scanout
                == backend.scanout && after.last_error is Some
        }),
{
}

/// What a session starts with: active, without outputs, a surface or an error.
pub proof fn sessions_start_active()
    ensures
        BackendState::fresh().status == NativeDrmStatus::Active,
        BackendState::fresh().outputs.len() == 0 && BackendState::fresh().untried.len() == 0,
        BackendState::fresh().scanout is None && BackendState::fresh().pipeline is None
            && BackendState::fresh().last_error is None,
        BackendState::fresh().hotplug_generation == 0 && !BackendState::fresh().needs_reprobe,
        BackendState::fresh().wf(),
{
}

proof fn modes_are_counted(outputs: Seq<NativeOutput>, next: NativeOutput)
    ensures
        mode_count(outputs.push(next)) == mode_count(outputs) + next.modes@.len(),
{
    assert(outputs.push(next).drop_last() =~= outputs);
}

/// Every mode of every output counts, and an output can be scanned out where one
/// has a mode.
pub proof fn outputs_with_modes_can_be_scanned_out(
    outputs: Seq<NativeOutput>,
    next: NativeOutput,
    i: int,
)
    ensures
        mode_count(Seq::empty()) == 0,
        mode_count(outputs.push(next)) == mode_count(outputs) + next.modes@.len(),
        0 <= i < outputs.len() && outputs[i].modes@.len() > 0 ==> has_mode(outputs),
        has_mode(Seq::empty()) == false,
{
    modes_are_counted(outputs, next);
    if 0 <= i < outputs.len() && outputs[i].modes@.len() > 0 {
        assert(outputs[i].modes.len() > 0);
    }
}

/// The budget of a loss runs from its first attempt that failed: twenty seconds
/// on, an attempt that fails gives up, and none before. One that succeeds ends
/// the loss, and one while the session is paused neither begins nor ends it.
pub proof fn the_budget_runs_from_the_first_failure(
    timer: FrameTimer,
    first: u64,
    later: u64,
    status: NativeDrmStatus,
)
    requires
        timer.recovering_since is None,
        status != NativeDrmStatus::Paused,
        first <= later,
    ensures
        ({
            let lost = timer.after_attempt(false, status, first);
            let still = lost.after_attempt(false, status, later);
            let paused = lost.after_attempt(false, NativeDrmStatus::Paused, later);
            let back = lost.after_attempt(true, status, later);
            &&& lost.recovering_since == Some(first) && still.recovering_since == Some(first)
                && paused.recovering_since == Some(first)
            &&& back.recovering_since is None
            &&& timer.outcome(false, status, first) == RecoveryOutcome::Wait
            &&& lost.outcome(false, status, later) == RecoveryOutcome::GiveUp <==> later - first
                >= 20_000_000_000
            &&& lost.outcome(false, NativeDrmStatus::Paused, later) == RecoveryOutcome::Wait
            &&& lost.outcome(true, status, later) == RecoveryOutcome::Redraw
            &&& still.render_failures == timer.render_failures && still.last_recovery_attempt
                == timer.last_recovery_attempt
        }),
{
}

/// A frame that fails releases the surface, until sixty in a row have failed;
/// one that is shown begins the count anew.
pub proof fn sixty_failures_in_a_row_give_up(timer: FrameTimer)
    requires
        timer.render_failures < 60,
    ensures
        timer.frame_outcome(true) == FrameOutcome::Shown,
        timer.after_frame(true).render_failures == 0,
        timer.frame_outcome(false) == FrameOutcome::GiveUp <==> timer.render_failures == 59,
        timer.frame_outcome(false) == FrameOutcome::Release <==> timer.render_failures < 59,
        timer.after_frame(false).render_failures == timer.render_failures + 1,
        timer.after_frame(false).recovering_since == timer.recovering_since,
{
}

/// Callbacks are delivered once for each count of presented frames, and only for
/// one that is higher than before.
pub proof fn callbacks_are_delivered_once(timer: FrameTimer, presented: u64)
    ensures
        timer.owes_callbacks(presented) <==> presented > timer.delivered_presentations,
        !timer.after_callbacks(presented).owes_callbacks(presented),
        timer.after_callbacks(presented).delivered_presentations >= timer.delivered_presentations,
        timer.after_callbacks(presented).output_size == timer.output_size,
{
}

/// The desktop is as large as the mode that is scanned out, and keeps its size
/// without one.
pub proof fn the_desktop_is_as_large_as_its_mode(timer: FrameTimer, config: NativeOutputConfig)
    requires
        config.mode.width <= i32::MAX && config.mode.height <= i32::MAX,
    ensures
        timer.size_for(Some(config)).0 == config.mode.width,
        timer.size_for(Some(config)).1 == config.mode.height,
        timer.size_for(None) == timer.output_size,
{
}

/// A startup is tried four times in all, where its error may pass.
pub proof fn startups_are_tried_four_times(attempt: u32, error: ErrorModel)
    ensures
        tries_again(attempt, error) <==> attempt < 4 && (error.kind == NativeDrmErrorKind::Seat
            || error.kind == NativeDrmErrorKind::Drm || error.kind
            == NativeDrmErrorKind::NoOutput),
{
}

/// A frame is drawn only by an active session with a surface that waits for no
/// other frame.
pub proof fn frames_need_an_active_surface(backend: BackendState)
    ensures
        backend.renderable() <==> backend.status == NativeDrmStatus::Active && (
        backend.pipeline matches Some(pipeline) && pipeline.surface_active
            && !pipeline.frame_pending),
{
}

/// How a session tells its state and its errors: each status has its own word,
/// and each kind of error its own opening.
pub proof fn states_and_errors_have_their_words(detail: Seq<char>)
    ensures
        NativeDrmStatus::Active.spec_label() == "active"@,
        NativeDrmStatus::Paused.spec_label() == "paused"@,
        NativeDrmStatus::Recovering.spec_label() == "recovering"@,
        NativeDrmStatus::NoOutputs.spec_label() == "no-outputs"@,
        NativeDrmStatus::Failed.spec_label() == "failed"@,
        error_model(NativeDrmErrorKind::Seat, detail).text() == "seat acquisition failed"@ + ": "@
            + detail,
        error_model(NativeDrmErrorKind::Device, detail).text() == "DRM device failed"@ + ": "@
            + detail,
        error_model(NativeDrmErrorKind::Udev, detail).text() == "udev monitor failed"@ + ": "@
            + detail,
        error_model(NativeDrmErrorKind::Drm, detail).text() == "DRM probe failed"@ + ": "@ + detail,
        error_model(NativeDrmErrorKind::NoDevice, detail).text() == "no usable DRM device"@ + ": "@
            + detail,
        error_model(NativeDrmErrorKind::NoOutput, detail).text() == "no connected DRM output"@
            + ": "@ + detail,
        error_model(NativeDrmErrorKind::NotReady, detail).text() == "native scanout not ready"@
            + ": "@ + detail,
{
}

/// A device can be used exactly where a connected output of it has a mode.
pub proof fn devices_need_an_output_with_a_mode(
    probe: Seq<ProbedConnector>,
    device: Seq<char>,
    i: int,
    output: NativeOutput,
)
    ensures
        0 <= i < probe.len() && probe[i] == ProbedConnector::Connected(output)
            && output.modes@.len() > 0 ==> probe_fault(probe, device) is None,
        (forall|k: int|
            0 <= k < probe.len() ==> !((#[trigger] probe[k]) matches ProbedConnector::Connected(
                other,
            ) && other.modes@.len() > 0)) ==> (probe_fault(probe, device) matches Some(fault)
            && fault.kind == NativeDrmErrorKind::NoOutput),
{
    let outputs = connected_outputs(probe);
    if 0 <= i < probe.len() && probe[i] == ProbedConnector::Connected(output)
        && output.modes@.len() > 0 {
        probes_tell_what_is_connected(probe, output);
        assert(probe.contains(probe[i]));
        let k = choose|k: int| 0 <= k < outputs.len() && outputs[k] == output;
        assert(outputs[k].modes.len() > 0);
    }
    if has_mode(outputs) {
        let k = choose|k: int| 0 <= k < outputs.len() && (#[trigger] outputs[k]).modes.len() > 0;
        probes_tell_what_is_connected(probe, outputs[k]);
        assert(outputs.contains(outputs[k]));
        let n = choose|n: int|
            0 <= n < probe.len() && probe[n] == ProbedConnector::Connected(outputs[k]);
        assert(probe[n] matches ProbedConnector::Connected(other) && other.modes@.len() > 0);
    }
}

/// A frame may be begun exactly where there is a surface that waits for no other;
/// the seat is the one that was asked for, or else the session's own.
pub proof fn frames_are_begun_one_at_a_time(
    backend: BackendState,
    asked: Seq<char>,
    own: Seq<char>,
)
    ensures
        backend.frame_fault() is None <==> (backend.pipeline matches Some(pipeline)
            && pipeline.surface_active && !pipeline.frame_pending),
        backend.pipeline is None ==> (backend.frame_fault() matches Some(fault) && fault.kind
            == NativeDrmErrorKind::NotReady),
        backend.renderable() ==> backend.frame_fault() is None,
        seat_choice(Some(asked), own) == asked,
        seat_choice(None, own) == own,
{
}

} // verus!
