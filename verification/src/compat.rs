//! Compatibility states that never claim more than was observed.
//!
//! A `Confirmed` observation comes from the protocol or D-Bus layer that owns
//! the connection. File presence, environment variables and executable
//! discovery are `Detected` at most, so that a missing portal backend or an
//! unbound XWayland bridge is never presented as a working feature.

use crate::text::concat2;
use crate::xwayland::{HostEnvironment, HostFacts, XWaylandAdapter, XWaylandDetection};
use vstd::prelude::*;
use vstd::string::*;

verus! {

/// A capability state that can be shown to a caller without implying more
/// integration than has been observed.
#[derive(Clone, Copy, Debug, Eq, Ord, PartialEq, PartialOrd, Structural)]
pub enum CapabilityState {
    /// The owning protocol or service was queried and the required operation
    /// was confirmed.
    Available,
    /// Some prerequisite is present, but the operation or bridge was not
    /// confirmed. Callers should use a bounded fallback.
    Degraded,
    /// A required prerequisite is absent or a confirmed probe failed.
    Unavailable,
}

impl CapabilityState {
    pub fn is_available(self) -> (yes: bool)
        ensures
            yes == (self == CapabilityState::Available),
    {
        matches!(self, CapabilityState::Available)
    }

    pub fn is_degraded(self) -> (yes: bool)
        ensures
            yes == (self == CapabilityState::Degraded),
    {
        matches!(self, CapabilityState::Degraded)
    }

    pub fn is_unavailable(self) -> (yes: bool)
        ensures
            yes == (self == CapabilityState::Unavailable),
    {
        matches!(self, CapabilityState::Unavailable)
    }

    pub open spec fn spec_name(self) -> Seq<char> {
        match self {
            CapabilityState::Available => "Available"@,
            CapabilityState::Degraded => "Degraded"@,
            CapabilityState::Unavailable => "Unavailable"@,
        }
    }

    pub fn name(self) -> (name: &'static str)
        ensures
            name@ == self.spec_name(),
    {
        match self {
            CapabilityState::Available => "Available",
            CapabilityState::Degraded => "Degraded",
            CapabilityState::Unavailable => "Unavailable",
        }
    }
}

/// Evidence used by a probe. `Detected` means that a cheap local discovery
/// found a prerequisite; it is not the same as a successful protocol call.
#[derive(Clone, Copy, Debug, Eq, Ord, PartialEq, PartialOrd, Structural)]
pub enum ProbeEvidence {
    /// A real protocol or D-Bus query completed successfully.
    Confirmed,
    /// A binary, environment entry, or activatable service was discovered.
    Detected,
    /// The local probe could not find the prerequisite.
    NotDetected,
    /// A real probe ran and reported an error.
    Failed,
}

impl Default for ProbeEvidence {
    fn default() -> (evidence: Self)
        ensures
            evidence == ProbeEvidence::NotDetected,
    {
        ProbeEvidence::NotDetected
    }
}

impl ProbeEvidence {
    pub open spec fn implied(self) -> CapabilityState {
        match self {
            ProbeEvidence::Confirmed => CapabilityState::Available,
            ProbeEvidence::Detected => CapabilityState::Degraded,
            ProbeEvidence::NotDetected | ProbeEvidence::Failed => CapabilityState::Unavailable,
        }
    }

    /// The state that the evidence supports.
    pub fn state(self) -> (state: CapabilityState)
        ensures
            state == self.implied(),
    {
        match self {
            ProbeEvidence::Confirmed => CapabilityState::Available,
            ProbeEvidence::Detected => CapabilityState::Degraded,
            ProbeEvidence::NotDetected | ProbeEvidence::Failed => CapabilityState::Unavailable,
        }
    }
}

/// User-facing capability identifiers used by the compatibility matrix.
#[derive(Clone, Copy, Debug, Eq, Ord, PartialEq, PartialOrd, Structural)]
pub enum Capability {
    XWayland,
    X11Applications,
    DataDevice,
    Clipboard,
    DragAndDrop,
    PrimarySelection,
    DbusSession,
    Portals,
    PortalClipboard,
    Screencast,
    Notifications,
}

impl Capability {
    pub open spec fn spec_all() -> Seq<Capability> {
        seq![
            Capability::XWayland,
            Capability::X11Applications,
            Capability::DataDevice,
            Capability::Clipboard,
            Capability::DragAndDrop,
            Capability::PrimarySelection,
            Capability::DbusSession,
            Capability::Portals,
            Capability::PortalClipboard,
            Capability::Screencast,
            Capability::Notifications,
        ]
    }

    /// Every capability, in the order of the matrix.
    pub fn all() -> (list: [Capability; 11])
        ensures
            list@ == Capability::spec_all(),
    {
        let list = [
            Capability::XWayland,
            Capability::X11Applications,
            Capability::DataDevice,
            Capability::Clipboard,
            Capability::DragAndDrop,
            Capability::PrimarySelection,
            Capability::DbusSession,
            Capability::Portals,
            Capability::PortalClipboard,
            Capability::Screencast,
            Capability::Notifications,
        ];
        assert(list@ =~= Capability::spec_all());
        list
    }
}

/// One matrix entry. `detail` is plain text that says why.
#[derive(Clone, Debug, Eq, PartialEq)]
pub struct CapabilityStatus {
    pub capability: Capability,
    pub state: CapabilityState,
    pub evidence: ProbeEvidence,
    pub detail: String,
}

#[verifier::ext_equal]
pub struct StatusModel {
    pub capability: Capability,
    pub state: CapabilityState,
    pub evidence: ProbeEvidence,
    pub detail: Seq<char>,
}

impl View for CapabilityStatus {
    type V = StatusModel;

    open spec fn view(&self) -> StatusModel {
        StatusModel {
            capability: self.capability,
            state: self.state,
            evidence: self.evidence,
            detail: self.detail@,
        }
    }
}

/// An entry whose state is the one that its evidence supports.
pub open spec fn supported_status(
    capability: Capability,
    evidence: ProbeEvidence,
    detail: Seq<char>,
) -> StatusModel {
    StatusModel { capability, state: evidence.implied(), evidence, detail }
}

pub open spec fn status_with(
    capability: Capability,
    state: CapabilityState,
    evidence: ProbeEvidence,
    detail: Seq<char>,
) -> StatusModel {
    StatusModel { capability, state, evidence, detail }
}

impl CapabilityStatus {
    fn new(capability: Capability, evidence: ProbeEvidence, detail: &str) -> (status: Self)
        ensures
            status@ == supported_status(capability, evidence, detail@),
    {
        CapabilityStatus {
            capability,
            state: evidence.state(),
            evidence,
            detail: detail.to_owned(),
        }
    }

    fn with_state(
        capability: Capability,
        state: CapabilityState,
        evidence: ProbeEvidence,
        detail: &str,
    ) -> (status: Self)
        ensures
            status@ == status_with(capability, state, evidence, detail@),
    {
        CapabilityStatus { capability, state, evidence, detail: detail.to_owned() }
    }
}

/// Discovery of Wayland protocol and bridge state. The compositor reports
/// `Confirmed` only after its protocol layer has installed the handler.
#[derive(Clone, Copy, Debug, Eq, PartialEq, Structural)]
pub struct WaylandProbe {
    pub data_device_manager: ProbeEvidence,
    pub drag_and_drop: ProbeEvidence,
    pub primary_selection: ProbeEvidence,
    pub xwayland_bridge: ProbeEvidence,
}

pub open spec fn nothing_bound() -> WaylandProbe {
    WaylandProbe {
        data_device_manager: ProbeEvidence::NotDetected,
        drag_and_drop: ProbeEvidence::NotDetected,
        primary_selection: ProbeEvidence::NotDetected,
        xwayland_bridge: ProbeEvidence::NotDetected,
    }
}

impl Default for WaylandProbe {
    fn default() -> (probe: Self)
        ensures
            probe == nothing_bound(),
    {
        WaylandProbe {
            data_device_manager: ProbeEvidence::NotDetected,
            drag_and_drop: ProbeEvidence::NotDetected,
            primary_selection: ProbeEvidence::NotDetected,
            xwayland_bridge: ProbeEvidence::NotDetected,
        }
    }
}

/// Portal observations supplied by a session-bus adapter, or by the cheap
/// environment probe. `Detected` and `Confirmed` have different user-visible
/// consequences.
#[derive(Clone, Copy, Debug, Eq, PartialEq, Structural)]
pub struct PortalProbe {
    pub session_bus: ProbeEvidence,
    pub desktop: ProbeEvidence,
    pub clipboard: ProbeEvidence,
    pub screencast: ProbeEvidence,
    pub notifications: ProbeEvidence,
}

impl Default for PortalProbe {
    fn default() -> (probe: Self)
        ensures
            probe == (PortalProbe {
                session_bus: ProbeEvidence::NotDetected,
                desktop: ProbeEvidence::NotDetected,
                clipboard: ProbeEvidence::NotDetected,
                screencast: ProbeEvidence::NotDetected,
                notifications: ProbeEvidence::NotDetected,
            }),
    {
        PortalProbe {
            session_bus: ProbeEvidence::NotDetected,
            desktop: ProbeEvidence::NotDetected,
            clipboard: ProbeEvidence::NotDetected,
            screencast: ProbeEvidence::NotDetected,
            notifications: ProbeEvidence::NotDetected,
        }
    }
}

pub open spec fn detected_if(found: bool) -> ProbeEvidence {
    if found {
        ProbeEvidence::Detected
    } else {
        ProbeEvidence::NotDetected
    }
}

fn detect_if(found: bool) -> (evidence: ProbeEvidence)
    ensures
        evidence == detected_if(found),
{
    if found {
        ProbeEvidence::Detected
    } else {
        ProbeEvidence::NotDetected
    }
}

impl PortalProbe {
    /// What session-bus addresses and activatable service files show. The
    /// facts tell which service files exist.
    pub fn from_environment(environment: &HostEnvironment, facts: &HostFacts) -> (probe: Self)
        ensures
            probe == environment.portal_probe(*facts),
    {
        PortalProbe {
            session_bus: detect_if(environment.has_session_bus()),
            desktop: detect_if(facts.portal_service),
            clipboard: ProbeEvidence::NotDetected,
            screencast: ProbeEvidence::NotDetected,
            notifications: detect_if(facts.notification_service),
        }
    }
}

// ---- the matrix ------------------------------------------------------------------

pub open spec fn by_evidence(
    capability: Capability,
    evidence: ProbeEvidence,
    confirmed: Seq<char>,
    detected: Seq<char>,
    missing: Seq<char>,
) -> StatusModel {
    supported_status(
        capability,
        evidence,
        match evidence {
            ProbeEvidence::Confirmed => confirmed,
            ProbeEvidence::Detected => detected,
            _ => missing,
        },
    )
}

fn status_from_evidence(
    capability: Capability,
    evidence: ProbeEvidence,
    confirmed_detail: &str,
    detected_detail: &str,
    missing_detail: &str,
) -> (status: CapabilityStatus)
    ensures
        status@ == by_evidence(
            capability,
            evidence,
            confirmed_detail@,
            detected_detail@,
            missing_detail@,
        ),
{
    let detail = match evidence {
        ProbeEvidence::Confirmed => confirmed_detail,
        ProbeEvidence::Detected => detected_detail,
        ProbeEvidence::NotDetected | ProbeEvidence::Failed => missing_detail,
    };
    CapabilityStatus::new(capability, evidence, detail)
}

/// A service that needs both its own name and the bus confirmed.
pub open spec fn by_service_and_bus(
    capability: Capability,
    service: ProbeEvidence,
    bus: ProbeEvidence,
    confirmed: Seq<char>,
    detected: Seq<char>,
    missing: Seq<char>,
) -> StatusModel {
    if service == ProbeEvidence::Confirmed && bus == ProbeEvidence::Confirmed {
        supported_status(capability, ProbeEvidence::Confirmed, confirmed)
    } else if service == ProbeEvidence::Failed || bus == ProbeEvidence::Failed {
        supported_status(capability, ProbeEvidence::Failed, missing)
    } else if service == ProbeEvidence::NotDetected && bus == ProbeEvidence::NotDetected {
        supported_status(capability, ProbeEvidence::NotDetected, missing)
    } else {
        supported_status(capability, ProbeEvidence::Detected, detected)
    }
}

fn portal_status(
    capability: Capability,
    portal: ProbeEvidence,
    bus: ProbeEvidence,
    confirmed_detail: &str,
    detected_detail: &str,
    missing_detail: &str,
) -> (status: CapabilityStatus)
    ensures
        status@ == by_service_and_bus(
            capability,
            portal,
            bus,
            confirmed_detail@,
            detected_detail@,
            missing_detail@,
        ),
{
    match (portal, bus) {
        (ProbeEvidence::Confirmed, ProbeEvidence::Confirmed) => CapabilityStatus::new(
            capability,
            ProbeEvidence::Confirmed,
            confirmed_detail,
        ),
        (ProbeEvidence::Failed, _) | (_, ProbeEvidence::Failed) => CapabilityStatus::with_state(
            capability,
            CapabilityState::Unavailable,
            ProbeEvidence::Failed,
            missing_detail,
        ),
        (ProbeEvidence::NotDetected, ProbeEvidence::NotDetected) => CapabilityStatus::new(
            capability,
            ProbeEvidence::NotDetected,
            missing_detail,
        ),
        _ => CapabilityStatus::with_state(
            capability,
            CapabilityState::Degraded,
            ProbeEvidence::Detected,
            detected_detail,
        ),
    }
}

/// An optional interface of a service: without evidence of its own it counts
/// as detected where the service shows any.
pub open spec fn by_interface(
    capability: Capability,
    interface: ProbeEvidence,
    service: ProbeEvidence,
    confirmed: Seq<char>,
    missing: Seq<char>,
) -> StatusModel {
    if interface == ProbeEvidence::Confirmed {
        supported_status(capability, interface, confirmed)
    } else if interface == ProbeEvidence::NotDetected && service != ProbeEvidence::NotDetected {
        supported_status(capability, ProbeEvidence::Detected, missing)
    } else {
        supported_status(capability, interface, missing)
    }
}

fn optional_portal_status(
    capability: Capability,
    interface: ProbeEvidence,
    desktop: ProbeEvidence,
    confirmed_detail: &str,
    missing_detail: &str,
) -> (status: CapabilityStatus)
    ensures
        status@ == by_interface(
            capability,
            interface,
            desktop,
            confirmed_detail@,
            missing_detail@,
        ),
{
    match interface {
        ProbeEvidence::Confirmed => CapabilityStatus::new(
            capability,
            ProbeEvidence::Confirmed,
            confirmed_detail,
        ),
        ProbeEvidence::Failed => CapabilityStatus::with_state(
            capability,
            CapabilityState::Unavailable,
            ProbeEvidence::Failed,
            missing_detail,
        ),
        ProbeEvidence::Detected => CapabilityStatus::with_state(
            capability,
            CapabilityState::Degraded,
            ProbeEvidence::Detected,
            missing_detail,
        ),
        ProbeEvidence::NotDetected => if desktop != ProbeEvidence::NotDetected {
            CapabilityStatus::with_state(
                capability,
                CapabilityState::Degraded,
                ProbeEvidence::Detected,
                missing_detail,
            )
        } else {
            CapabilityStatus::new(capability, ProbeEvidence::NotDetected, missing_detail)
        },
    }
}

/// Whether XWayland can be launched, as its adapter found out.
pub open spec fn xwayland_entry(state: CapabilityState, reason: Seq<char>) -> StatusModel {
    status_with(
        Capability::XWayland,
        state,
        detected_if(state != CapabilityState::Unavailable),
        reason,
    )
}

/// X11 clients can map once XWayland can be launched and the compositor has
/// confirmed its bridge.
pub open spec fn x11_entry(
    state: CapabilityState,
    reason: Seq<char>,
    bridge: ProbeEvidence,
) -> StatusModel {
    let capability = Capability::X11Applications;
    if state == CapabilityState::Unavailable {
        supported_status(
            capability,
            ProbeEvidence::NotDetected,
            "XWayland fallback unavailable: "@ + reason,
        )
    } else {
        match bridge {
            ProbeEvidence::Confirmed => supported_status(
                capability,
                bridge,
                "XWayland executable and compositor bridge are confirmed."@,
            ),
            ProbeEvidence::Failed => supported_status(
                capability,
                bridge,
                "XWayland exists, but its compositor bridge probe failed."@,
            ),
            _ => supported_status(
                capability,
                ProbeEvidence::Detected,
                "XWayland can be started, but the compositor bridge is not confirmed; use native Wayland first."@,
            ),
        }
    }
}

pub open spec fn data_device_entry(manager: ProbeEvidence) -> StatusModel {
    by_evidence(
        Capability::DataDevice,
        manager,
        "wl_data_device_manager is confirmed by the compositor protocol layer."@,
        "wl_data_device_manager was discovered but its runtime binding is not confirmed."@,
        "wl_data_device_manager was not confirmed; clipboard and DnD cannot be assumed."@,
    )
}

/// The clipboard is the data device's; a confirmed portal clipboard is a
/// fallback only.
pub open spec fn clipboard_entry(manager: ProbeEvidence, portal: ProbeEvidence) -> StatusModel {
    let capability = Capability::Clipboard;
    if manager == ProbeEvidence::Confirmed {
        supported_status(
            capability,
            ProbeEvidence::Confirmed,
            "Clipboard uses the real wl_data_device selection/offer transfer path."@,
        )
    } else if portal == ProbeEvidence::Confirmed {
        status_with(
            capability,
            CapabilityState::Degraded,
            ProbeEvidence::Confirmed,
            "Portal clipboard is confirmed, but it is session-scoped and does not replace wl_data_device for ordinary Wayland clients."@,
        )
    } else if manager == ProbeEvidence::Detected {
        supported_status(
            capability,
            ProbeEvidence::Detected,
            "A data-device prerequisite exists, but clipboard ownership/transfer is not confirmed."@,
        )
    } else {
        supported_status(
            capability,
            ProbeEvidence::NotDetected,
            "No confirmed wl_data_device or session-scoped portal clipboard path."@,
        )
    }
}

pub open spec fn drag_entry(manager: ProbeEvidence, drag: ProbeEvidence) -> StatusModel {
    let capability = Capability::DragAndDrop;
    if drag == ProbeEvidence::Confirmed {
        supported_status(
            capability,
            ProbeEvidence::Confirmed,
            "Core wl_data_device drag-and-drop enter/motion/drop/leave handling is confirmed."@,
        )
    } else if manager == ProbeEvidence::Detected || drag == ProbeEvidence::Detected {
        supported_status(
            capability,
            ProbeEvidence::Detected,
            "The data-device manager exists, but drag-and-drop input handling is not confirmed."@,
        )
    } else {
        supported_status(
            capability,
            ProbeEvidence::NotDetected,
            "No confirmed wl_data_device drag-and-drop transport."@,
        )
    }
}

/// The whole matrix, in the order of the capabilities.
pub open spec fn matrix_of(
    state: CapabilityState,
    reason: Seq<char>,
    wayland: WaylandProbe,
    portals: PortalProbe,
) -> Seq<StatusModel> {
    seq![
        xwayland_entry(state, reason),
        x11_entry(state, reason, wayland.xwayland_bridge),
        data_device_entry(wayland.data_device_manager),
        clipboard_entry(wayland.data_device_manager, portals.clipboard),
        drag_entry(wayland.data_device_manager, wayland.drag_and_drop),
        by_evidence(
            Capability::PrimarySelection,
            wayland.primary_selection,
            "zwp_primary_selection_v1 is confirmed."@,
            "Primary selection was detected, but the optional protocol is not confirmed."@,
            "zwp_primary_selection_v1 is optional and was not confirmed."@,
        ),
        by_evidence(
            Capability::DbusSession,
            portals.session_bus,
            "A live session D-Bus connection was confirmed by the D-Bus adapter."@,
            "DBUS_SESSION_BUS_ADDRESS is present; connection/reachability is not confirmed here."@,
            "No session D-Bus address or successful connection was observed."@,
        ),
        by_service_and_bus(
            Capability::Portals,
            portals.desktop,
            portals.session_bus,
            "org.freedesktop.portal.Desktop is confirmed on the session bus."@,
            "The portal service is discoverable, but a live D-Bus name/interface was not confirmed."@,
            "No confirmed xdg-desktop-portal service is available."@,
        ),
        by_interface(
            Capability::PortalClipboard,
            portals.clipboard,
            portals.desktop,
            "org.freedesktop.portal.Clipboard is confirmed for a compatible portal session."@,
            "Clipboard portal support is not confirmed; it is session-scoped and may require Remote Desktop or Input Capture."@,
        ),
        by_interface(
            Capability::Screencast,
            portals.screencast,
            portals.desktop,
            "ScreenCast CreateSession/SelectSources/Start/OpenPipeWireRemote is confirmed."@,
            "ScreenCast was not confirmed; no PipeWire stream or user consent is assumed."@,
        ),
        by_interface(
            Capability::Notifications,
            portals.notifications,
            portals.session_bus,
            "org.freedesktop.Notifications is confirmed on the session bus."@,
            "A notification service may be activatable, but ownership and Notify support are not confirmed."@,
        ),
    ]
}

/// A snapshot of compatibility, made once at startup or after a session
/// restart. It does not poll, render, or spawn anything.
#[derive(Clone, Debug, Eq, PartialEq)]
pub struct CapabilityMatrix {
    statuses: Vec<CapabilityStatus>,
}

pub open spec fn status_views(list: Seq<CapabilityStatus>) -> Seq<StatusModel> {
    Seq::new(list.len(), |i: int| list[i]@)
}

pub open spec fn status_ref_views(list: Seq<&CapabilityStatus>) -> Seq<StatusModel> {
    Seq::new(list.len(), |i: int| list[i]@)
}

/// The entry of a capability in a list.
pub open spec fn entry_of(list: Seq<StatusModel>, capability: Capability) -> Option<StatusModel>
    decreases list.len(),
{
    if list.len() == 0 {
        None
    } else if list[0].capability == capability {
        Some(list[0])
    } else {
        entry_of(list.drop_first(), capability)
    }
}

impl Default for CapabilityMatrix {
    fn default() -> (matrix: Self)
        ensures
            matrix.entries() == Seq::<StatusModel>::empty(),
    {
        let matrix = CapabilityMatrix { statuses: Vec::new() };
        assert(matrix.entries() =~= Seq::empty());
        matrix
    }
}

impl CapabilityMatrix {
    pub closed spec fn entries(&self) -> Seq<StatusModel> {
        status_views(self.statuses@)
    }

    /// A conservative snapshot of the observations that the XWayland, Wayland
    /// and portal adapters supply.
    pub fn from_probes(xwayland: &XWaylandDetection, wayland: WaylandProbe, portals: PortalProbe) -> (matrix:
        Self)
        ensures
            matrix.entries() == matrix_of(xwayland.state, xwayland.reason@, wayland, portals),
    {
        let mut statuses: Vec<CapabilityStatus> = Vec::new();
        let xwayland_evidence = match xwayland.state {
            CapabilityState::Available => ProbeEvidence::Detected,
            CapabilityState::Degraded => ProbeEvidence::Detected,
            CapabilityState::Unavailable => ProbeEvidence::NotDetected,
        };
        statuses.push(
            CapabilityStatus::with_state(
                Capability::XWayland,
                xwayland.state,
                xwayland_evidence,
                xwayland.reason.as_str(),
            ),
        );
        let x11 = if xwayland.state.is_unavailable() {
            CapabilityStatus::with_state(
                Capability::X11Applications,
                CapabilityState::Unavailable,
                ProbeEvidence::NotDetected,
                concat2("XWayland fallback unavailable: ", xwayland.reason.as_str()).as_str(),
            )
        } else {
            match wayland.xwayland_bridge {
                ProbeEvidence::Confirmed => CapabilityStatus::with_state(
                    Capability::X11Applications,
                    CapabilityState::Available,
                    ProbeEvidence::Confirmed,
                    "XWayland executable and compositor bridge are confirmed.",
                ),
                ProbeEvidence::Failed => CapabilityStatus::with_state(
                    Capability::X11Applications,
                    CapabilityState::Unavailable,
                    ProbeEvidence::Failed,
                    "XWayland exists, but its compositor bridge probe failed.",
                ),
                ProbeEvidence::Detected | ProbeEvidence::NotDetected => CapabilityStatus::with_state(
                    Capability::X11Applications,
                    CapabilityState::Degraded,
                    ProbeEvidence::Detected,
                    "XWayland can be started, but the compositor bridge is not confirmed; use native Wayland first.",
                ),
            }
        };
        statuses.push(x11);
        let data_device = status_from_evidence(
            Capability::DataDevice,
            wayland.data_device_manager,
            "wl_data_device_manager is confirmed by the compositor protocol layer.",
            "wl_data_device_manager was discovered but its runtime binding is not confirmed.",
            "wl_data_device_manager was not confirmed; clipboard and DnD cannot be assumed.",
        );
        let data_device_state = data_device.state;
        statuses.push(data_device);
        let clipboard = if wayland.data_device_manager == ProbeEvidence::Confirmed {
            CapabilityStatus::new(
                Capability::Clipboard,
                ProbeEvidence::Confirmed,
                "Clipboard uses the real wl_data_device selection/offer transfer path.",
            )
        } else if portals.clipboard == ProbeEvidence::Confirmed {
            CapabilityStatus::with_state(
                Capability::Clipboard,
                CapabilityState::Degraded,
                ProbeEvidence::Confirmed,
                "Portal clipboard is confirmed, but it is session-scoped and does not replace wl_data_device for ordinary Wayland clients.",
            )
        } else if data_device_state == CapabilityState::Degraded {
            CapabilityStatus::with_state(
                Capability::Clipboard,
                CapabilityState::Degraded,
                ProbeEvidence::Detected,
                "A data-device prerequisite exists, but clipboard ownership/transfer is not confirmed.",
            )
        } else {
            CapabilityStatus::new(
                Capability::Clipboard,
                ProbeEvidence::NotDetected,
                "No confirmed wl_data_device or session-scoped portal clipboard path.",
            )
        };
        statuses.push(clipboard);
        let drag_and_drop = if wayland.drag_and_drop == ProbeEvidence::Confirmed {
            CapabilityStatus::new(
                Capability::DragAndDrop,
                ProbeEvidence::Confirmed,
                "Core wl_data_device drag-and-drop enter/motion/drop/leave handling is confirmed.",
            )
        } else if wayland.data_device_manager == ProbeEvidence::Detected || wayland.drag_and_drop
            == ProbeEvidence::Detected {
            CapabilityStatus::with_state(
                Capability::DragAndDrop,
                CapabilityState::Degraded,
                ProbeEvidence::Detected,
                "The data-device manager exists, but drag-and-drop input handling is not confirmed.",
            )
        } else {
            CapabilityStatus::new(
                Capability::DragAndDrop,
                ProbeEvidence::NotDetected,
                "No confirmed wl_data_device drag-and-drop transport.",
            )
        };
        statuses.push(drag_and_drop);
        statuses.push(
            status_from_evidence(
                Capability::PrimarySelection,
                wayland.primary_selection,
                "zwp_primary_selection_v1 is confirmed.",
                "Primary selection was detected, but the optional protocol is not confirmed.",
                "zwp_primary_selection_v1 is optional and was not confirmed.",
            ),
        );
        statuses.push(
            status_from_evidence(
                Capability::DbusSession,
                portals.session_bus,
                "A live session D-Bus connection was confirmed by the D-Bus adapter.",
                "DBUS_SESSION_BUS_ADDRESS is present; connection/reachability is not confirmed here.",
                "No session D-Bus address or successful connection was observed.",
            ),
        );
        statuses.push(
            portal_status(
                Capability::Portals,
                portals.desktop,
                portals.session_bus,
                "org.freedesktop.portal.Desktop is confirmed on the session bus.",
                "The portal service is discoverable, but a live D-Bus name/interface was not confirmed.",
                "No confirmed xdg-desktop-portal service is available.",
            ),
        );
        statuses.push(
            optional_portal_status(
                Capability::PortalClipboard,
                portals.clipboard,
                portals.desktop,
                "org.freedesktop.portal.Clipboard is confirmed for a compatible portal session.",
                "Clipboard portal support is not confirmed; it is session-scoped and may require Remote Desktop or Input Capture.",
            ),
        );
        statuses.push(
            optional_portal_status(
                Capability::Screencast,
                portals.screencast,
                portals.desktop,
                "ScreenCast CreateSession/SelectSources/Start/OpenPipeWireRemote is confirmed.",
                "ScreenCast was not confirmed; no PipeWire stream or user consent is assumed.",
            ),
        );
        statuses.push(
            optional_portal_status(
                Capability::Notifications,
                portals.notifications,
                portals.session_bus,
                "org.freedesktop.Notifications is confirmed on the session bus.",
                "A notification service may be activatable, but ownership and Notify support are not confirmed.",
            ),
        );
        let matrix = CapabilityMatrix { statuses };
        assert(matrix.entries() =~= matrix_of(xwayland.state, xwayland.reason@, wayland, portals));
        matrix
    }

    /// What cheap local evidence shows. Wayland globals and live D-Bus
    /// interfaces remain `NotDetected` until their owning connection reports
    /// them.
    pub fn detect(environment: &HostEnvironment, facts: &HostFacts) -> (matrix: Self)
        ensures
            matrix.entries() == matrix_of(
                environment.xwayland(*facts).state,
                environment.xwayland(*facts).reason,
                nothing_bound(),
                environment.portal_probe(*facts),
            ),
    {
        let xwayland = XWaylandAdapter::from_environment(environment, facts);
        let portals = PortalProbe::from_environment(environment, facts);
        CapabilityMatrix::from_probes(&xwayland.detection, WaylandProbe::default(), portals)
    }

    /// The entry of a capability.
    pub fn status(&self, capability: Capability) -> (status: Option<&CapabilityStatus>)
        ensures
            match (status, entry_of(self.entries(), capability)) {
                (Some(found), Some(entry)) => found@ == entry,
                (None, None) => true,
                _ => false,
            },
    {
        let ghost all = self.entries();
        let mut i: usize = 0;
        assert(all.subrange(0, all.len() as int) =~= all);
        while i < self.statuses.len()
            invariant
                i <= self.statuses.len(),
                all == status_views(self.statuses@),
                entry_of(all, capability) == entry_of(
                    all.subrange(i as int, all.len() as int),
                    capability,
                ),
            decreases self.statuses.len() - i,
        {
            let ghost rest = all.subrange(i as int, all.len() as int);
            assert(rest[0] == self.statuses@[i as int]@);
            assert(rest.drop_first() =~= all.subrange(i + 1, all.len() as int));
            if self.statuses[i].capability == capability {
                return Some(&self.statuses[i]);
            }
            i += 1;
        }
        None
    }

    /// The state of a capability; one without an entry is unavailable.
    pub fn state(&self, capability: Capability) -> (state: CapabilityState)
        ensures
            state == (match entry_of(self.entries(), capability) {
                Some(entry) => entry.state,
                None => CapabilityState::Unavailable,
            }),
    {
        match self.status(capability) {
            Some(status) => status.state,
            None => CapabilityState::Unavailable,
        }
    }

    /// The entries, in the order of the capabilities.
    pub fn iter(&self) -> (list: Vec<&CapabilityStatus>)
        ensures
            status_ref_views(list@) == self.entries(),
    {
        let mut list: Vec<&CapabilityStatus> = Vec::new();
        let mut i: usize = 0;
        while i < self.statuses.len()
            invariant
                i <= self.statuses.len(),
                list.len() == i,
                forall|k: int| 0 <= k < i ==> (#[trigger] list@[k])@ == self.statuses@[k]@,
            decreases self.statuses.len() - i,
        {
            list.push(&self.statuses[i]);
            i += 1;
        }
        assert(status_ref_views(list@) =~= self.entries());
        list
    }
}

// ---- laws ------------------------------------------------------------------------

/// The matrix has one entry for each capability, in order.
pub proof fn the_matrix_is_complete(
    state: CapabilityState,
    reason: Seq<char>,
    wayland: WaylandProbe,
    portals: PortalProbe,
)
    ensures
        matrix_of(state, reason, wayland, portals).len() == Capability::spec_all().len(),
        forall|i: int|
            0 <= i < 11 ==> (#[trigger] matrix_of(state, reason, wayland, portals)[i]).capability
                == Capability::spec_all()[i],
{
}

/// A capability is available only on confirmed evidence. The one exception is
/// XWayland itself, which is available when it can be launched.
pub proof fn only_confirmed_evidence_is_available(
    state: CapabilityState,
    reason: Seq<char>,
    wayland: WaylandProbe,
    portals: PortalProbe,
    i: int,
)
    requires
        1 <= i < 11,
        matrix_of(state, reason, wayland, portals)[i].state == CapabilityState::Available,
    ensures
        matrix_of(state, reason, wayland, portals)[i].evidence == ProbeEvidence::Confirmed,
{
}

/// Local discovery alone makes nothing available but the launch of XWayland:
/// whatever the host shows, no protocol or portal interface is claimed.
pub proof fn local_detection_claims_nothing(environment: HostEnvironment, facts: HostFacts, i: int)
    requires
        1 <= i < 11,
    ensures
        ({
            let found = environment.xwayland(facts);
            let entry = matrix_of(
                found.state,
                found.reason,
                nothing_bound(),
                environment.portal_probe(facts),
            )[i];
            entry.state != CapabilityState::Available && entry.evidence != ProbeEvidence::Confirmed
        }),
{
}

/// What evidence implies: a confirmed probe makes a capability available, one
/// that was only detected leaves it degraded, and one that failed or found
/// nothing makes it unavailable.
pub proof fn evidence_implies_the_state(evidence: ProbeEvidence)
    ensures
        evidence.implied() == CapabilityState::Available <==> evidence == ProbeEvidence::Confirmed,
        evidence.implied() == CapabilityState::Degraded <==> evidence == ProbeEvidence::Detected,
        detected_if(true) == ProbeEvidence::Detected,
        detected_if(false) == ProbeEvidence::NotDetected,
{
}

/// Each entry of the matrix rests on its own evidence: XWayland and its
/// applications on what was found and on the bridge, the data device, clipboard,
/// drag and drop and primary selection on the protocol, and the rest on the
/// session bus and the portal.
pub proof fn entries_rest_on_their_own_evidence(
    state: CapabilityState,
    reason: Seq<char>,
    wayland: WaylandProbe,
    portals: PortalProbe,
)
    ensures
        ({
            let m = matrix_of(state, reason, wayland, portals);
            let confirmed = ProbeEvidence::Confirmed;
            let available = CapabilityState::Available;
            &&& m[0].capability == Capability::XWayland && m[0].state == state && m[0].detail
                == reason
            &&& m[1].capability == Capability::X11Applications && (m[1].state == available
                <==> state != CapabilityState::Unavailable && wayland.xwayland_bridge == confirmed)
            &&& m[2].capability == Capability::DataDevice && m[2].evidence
                == wayland.data_device_manager
            &&& m[3].capability == Capability::Clipboard && (m[3].state == available
                <==> wayland.data_device_manager == confirmed)
            &&& m[4].capability == Capability::DragAndDrop && (m[4].state == available
                <==> wayland.drag_and_drop == confirmed)
            &&& m[5].capability == Capability::PrimarySelection && m[5].evidence
                == wayland.primary_selection
            &&& m[6].capability == Capability::DbusSession && m[6].evidence == portals.session_bus
            &&& m[7].capability == Capability::Portals && (m[7].state == available
                <==> portals.desktop == confirmed && portals.session_bus == confirmed)
            &&& m[8].capability == Capability::PortalClipboard && (m[8].state == available
                <==> portals.clipboard == confirmed)
            &&& m[9].capability == Capability::Screencast && (m[9].state == available
                <==> portals.screencast == confirmed)
            &&& m[10].capability == Capability::Notifications && (m[10].state == available
                <==> portals.notifications == confirmed)
        }),
{
}

/// Which entries are degraded: one whose own evidence was only detected, or,
/// where a portal or notification interface was not found, whose service was.
/// A clipboard that only a portal confirmed is degraded too.
pub proof fn entries_are_degraded_for_these(
    state: CapabilityState,
    reason: Seq<char>,
    wayland: WaylandProbe,
    portals: PortalProbe,
)
    ensures
        ({
            let m = matrix_of(state, reason, wayland, portals);
            let confirmed = ProbeEvidence::Confirmed;
            let detected = ProbeEvidence::Detected;
            let absent = ProbeEvidence::NotDetected;
            let degraded = CapabilityState::Degraded;
            let failed = ProbeEvidence::Failed;
            &&& m[1].state == degraded <==> state != CapabilityState::Unavailable && (
            wayland.xwayland_bridge == detected || wayland.xwayland_bridge == absent)
            &&& m[3].state == degraded <==> wayland.data_device_manager != confirmed && (
            portals.clipboard == confirmed || wayland.data_device_manager == detected)
            &&& m[4].state == degraded <==> wayland.drag_and_drop != confirmed && (
            wayland.data_device_manager == detected || wayland.drag_and_drop == detected)
            &&& m[7].state == degraded <==> portals.desktop != failed && portals.session_bus
                != failed && !(portals.desktop == confirmed && portals.session_bus == confirmed)
                && !(portals.desktop == absent && portals.session_bus == absent)
            &&& m[8].state == degraded <==> portals.clipboard == detected || (portals.clipboard
                == absent && portals.desktop != absent)
            &&& m[9].state == degraded <==> portals.screencast == detected || (portals.screencast
                == absent && portals.desktop != absent)
            &&& m[10].state == degraded <==> portals.notifications == detected || (
            portals.notifications == absent && portals.session_bus != absent)
        }),
{
}

/// A capability is looked up by its own entry.
pub proof fn capabilities_are_looked_up_by_name(
    state: CapabilityState,
    reason: Seq<char>,
    wayland: WaylandProbe,
    portals: PortalProbe,
    capability: Capability,
)
    ensures
        entry_of(matrix_of(state, reason, wayland, portals), capability) matches Some(entry)
            && entry.capability == capability && matrix_of(
            state,
            reason,
            wayland,
            portals,
        ).contains(entry),
{
    let m = matrix_of(state, reason, wayland, portals);
    entries_are_found(m, capability);
    assert(m[0].capability == Capability::XWayland);
    assert(m[1].capability == Capability::X11Applications);
    assert(m[2].capability == Capability::DataDevice);
    assert(m[3].capability == Capability::Clipboard);
    assert(m[4].capability == Capability::DragAndDrop);
    assert(m[5].capability == Capability::PrimarySelection);
    assert(m[6].capability == Capability::DbusSession);
    assert(m[7].capability == Capability::Portals);
    assert(m[8].capability == Capability::PortalClipboard);
    assert(m[9].capability == Capability::Screencast);
    assert(m[10].capability == Capability::Notifications);
}

proof fn entries_are_found(list: Seq<StatusModel>, capability: Capability)
    ensures
        match entry_of(list, capability) {
            Some(entry) => entry.capability == capability && list.contains(entry),
            None => forall|i: int| 0 <= i < list.len() ==> (#[trigger] list[i]).capability
                != capability,
        },
    decreases list.len(),
{
    if list.len() > 0 {
        let rest = list.drop_first();
        entries_are_found(rest, capability);
        if list[0].capability != capability {
            match entry_of(rest, capability) {
                Some(entry) => {
                    let k = choose|k: int| 0 <= k < rest.len() && rest[k] == entry;
                    assert(list[k + 1] == entry);
                },
                None => {
                    assert forall|i: int| 0 <= i < list.len() implies (
                    #[trigger] list[i]).capability != capability by {
                        if i > 0 {
                            assert(rest[i - 1] == list[i]);
                        }
                    }
                },
            }
        } else {
            assert(list.contains(list[0]));
        }
    }
}

} // verus!
