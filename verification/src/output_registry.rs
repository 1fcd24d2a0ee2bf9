//! The registry of connected outputs: layout, focus and session state.

use crate::input::SessionSignal;
use crate::num::{magnitude, magnitude_of, plus, saturated};
use crate::output_discovery::{
    by_connector, by_connector_is_ordered, insert_snapshot, insert_snapshot_skips,
    ordered_by_connector,
};
use crate::outputs::{snapshot_views, OutputGeometry, OutputSnapshot, SnapshotModel};
use crate::text::{
    chars_of, comes_before, concat2, concat3, copy_option, option_str_view, option_view, precedes,
    precedes_is_total, same, signed_decimal, signed_decimal_text, trimmed,
};
use vstd::prelude::*;
use vstd::string::*;

verus! {

/// Arrangement policy for the global output space.
#[derive(Debug, Clone, Copy, PartialEq, Eq, Structural)]
pub enum LayoutStrategy {
    /// Place outputs left to right, primary first.
    Horizontal,
    /// Place outputs top to bottom, primary first.
    Vertical,
    /// Keep saved locations and append only outputs without a location.
    Preserve,
}

/// A rectangle assigned to one output after arrangement.
#[derive(Debug, Clone, PartialEq, Eq)]
pub struct OutputPlacement {
    /// Connector identifier.
    pub id: String,
    /// Assigned global logical geometry.
    pub geometry: OutputGeometry,
}

#[verifier::ext_equal]
pub struct PlacementModel {
    pub id: Seq<char>,
    pub geometry: OutputGeometry,
}

impl View for OutputPlacement {
    type V = PlacementModel;

    open spec fn view(&self) -> PlacementModel {
        PlacementModel { id: self.id@, geometry: self.geometry }
    }
}

pub open spec fn placement_views(list: Seq<OutputPlacement>) -> Seq<PlacementModel> {
    Seq::new(list.len(), |i: int| list[i]@)
}

/// Result of a layout pass.
#[derive(Debug, Clone, PartialEq, Eq)]
pub struct LayoutSummary {
    /// All assigned placements in deterministic order.
    pub placements: Vec<OutputPlacement>,
    /// Bounding rectangle of the virtual desktop.
    pub virtual_geometry: Option<OutputGeometry>,
}

/// Native session lifecycle as seen by the output model.
#[derive(Debug, Clone, Copy, PartialEq, Eq, Structural)]
pub enum SessionState {
    /// The compositor owns the active VT.
    Active {
        /// Active virtual terminal number when known.
        vt: Option<i32>,
    },
    /// The compositor must not submit to DRM or deliver input.
    Paused,
    /// The seat connection was lost and needs a controlled restart.
    Lost,
}

/// State transition generated by output discovery and session reconciliation.
#[derive(Debug, Clone, PartialEq, Eq)]
pub enum OutputChange {
    /// A connector became available.
    Added(String),
    /// A connector's mode, scale, or geometry changed.
    Changed(String),
    /// A connector disappeared.
    Removed(String),
    /// The keyboard and pointer output focus changed.
    FocusChanged(Option<String>),
    /// The native session changed lifecycle state.
    SessionChanged(SessionState),
}

pub enum ChangeModel {
    Added(Seq<char>),
    Changed(Seq<char>),
    Removed(Seq<char>),
    FocusChanged(Option<Seq<char>>),
    SessionChanged(SessionState),
}

impl View for OutputChange {
    type V = ChangeModel;

    open spec fn view(&self) -> ChangeModel {
        match self {
            OutputChange::Added(id) => ChangeModel::Added(id@),
            OutputChange::Changed(id) => ChangeModel::Changed(id@),
            OutputChange::Removed(id) => ChangeModel::Removed(id@),
            OutputChange::FocusChanged(id) => ChangeModel::FocusChanged(option_view(*id)),
            OutputChange::SessionChanged(state) => ChangeModel::SessionChanged(*state),
        }
    }
}

pub open spec fn change_views(list: Seq<OutputChange>) -> Seq<ChangeModel> {
    Seq::new(list.len(), |i: int| list[i]@)
}

pub open spec fn change_option(change: Option<OutputChange>) -> Option<ChangeModel> {
    match change {
        Some(c) => Some(c@),
        None => None,
    }
}

proof fn change_views_push(list: Seq<OutputChange>, item: OutputChange)
    ensures
        change_views(list.push(item)) == change_views(list).push(item@),
{
    assert(change_views(list.push(item)) =~= change_views(list).push(item@));
}

/// A validated request to change virtual terminals.
#[derive(Debug, Clone, Copy, PartialEq, Eq, Structural)]
pub struct VtRequest {
    /// Target VT number, one through 63.
    pub vt: i32,
}

/// Errors of the output and session state.
#[derive(Debug, Clone, PartialEq, Eq)]
pub enum OutputError {
    /// A VT number outside the Linux range was requested.
    InvalidVt(i32),
    /// A VT switch was requested while the seat was not active.
    SessionInactive,
    /// A requested output is not currently connected.
    UnknownOutput(String),
}

impl OutputError {
    pub open spec fn text(&self) -> Seq<char> {
        match self {
            OutputError::InvalidVt(vt) => "invalid VT "@ + signed_decimal(*vt as int)
                + "; expected 1..=63"@,
            OutputError::SessionInactive => "output session is inactive"@,
            OutputError::UnknownOutput(id) => "unknown output "@ + id@,
        }
    }

    /// What went wrong, for a user.
    pub fn message(&self) -> (message: String)
        ensures
            message@ == self.text(),
    {
        match self {
            OutputError::InvalidVt(vt) => concat3(
                "invalid VT ",
                signed_decimal_text(*vt).as_str(),
                "; expected 1..=63",
            ),
            OutputError::SessionInactive => "output session is inactive".to_owned(),
            OutputError::UnknownOutput(id) => concat2("unknown output ", id.as_str()),
        }
    }
}

/// Direction for spatial output focus.
#[derive(Debug, Clone, Copy, PartialEq, Eq, Structural)]
pub enum OutputDirection {
    /// Output to the left.
    Left,
    /// Output to the right.
    Right,
    /// Output above.
    Up,
    /// Output below.
    Down,
}

/// Session event consumed by [`OutputRegistry`].
#[derive(Debug, Clone, Copy, PartialEq, Eq, Structural)]
pub enum SessionEvent {
    /// The seat paused the compositor.
    Pause,
    /// The seat became active again.
    Activate {
        /// Active VT when supplied by the session implementation.
        vt: Option<i32>,
    },
    /// The seat connection was lost.
    Lost,
}

/// The session event of a signal.
pub open spec fn event_of_signal(signal: SessionSignal) -> SessionEvent {
    match signal {
        SessionSignal::PauseSession => SessionEvent::Pause,
        SessionSignal::ActivateSession => SessionEvent::Activate { vt: None },
    }
}

/// The session event that a signal of the seat is; the seat does not tell which
/// terminal is active.
pub fn map_session_event(signal: SessionSignal) -> (event: SessionEvent)
    ensures
        event == event_of_signal(signal),
{
    match signal {
        SessionSignal::PauseSession => SessionEvent::Pause,
        SessionSignal::ActivateSession => SessionEvent::Activate { vt: None },
    }
}

// ---- the model ---------------------------------------------------------------

#[verifier::ext_equal]
pub struct OutputModel {
    pub snapshot: SnapshotModel,
    pub geometry: OutputGeometry,
}

/// What a registry holds.
#[verifier::ext_equal]
pub struct RegistryModel {
    /// The connected outputs, ordered by connector.
    pub outputs: Seq<OutputModel>,
    pub focused: Option<Seq<char>>,
    pub saved_focus: Option<Seq<char>>,
    pub session: SessionState,
}

/// The output of connector `id`.
pub open spec fn output_of(outputs: Seq<OutputModel>, id: Seq<char>) -> Option<OutputModel>
    decreases outputs.len(),
{
    if outputs.len() == 0 {
        None
    } else if outputs.last().snapshot.id == id {
        Some(outputs.last())
    } else {
        output_of(outputs.drop_last(), id)
    }
}

pub open spec fn snapshots_of(outputs: Seq<OutputModel>) -> Seq<SnapshotModel> {
    Seq::new(outputs.len(), |i: int| outputs[i].snapshot)
}

/// The outputs that are primary, or those that are not, in their order.
pub open spec fn with_primary(outputs: Seq<OutputModel>, primary: bool) -> Seq<OutputModel>
    decreases outputs.len(),
{
    if outputs.len() == 0 {
        Seq::empty()
    } else {
        let before = with_primary(outputs.drop_last(), primary);
        if outputs.last().snapshot.primary == primary {
            before.push(outputs.last())
        } else {
            before
        }
    }
}

/// The outputs in focus order: the primary ones first, each group ordered by
/// connector.
pub open spec fn in_order(outputs: Seq<OutputModel>) -> Seq<OutputModel> {
    with_primary(outputs, true) + with_primary(outputs, false)
}

pub open spec fn first_id(outputs: Seq<OutputModel>) -> Option<Seq<char>> {
    if outputs.len() == 0 {
        None
    } else {
        Some(in_order(outputs)[0].snapshot.id)
    }
}

/// A layout in progress: the rectangles assigned so far and the places where
/// the next one goes.
#[verifier::ext_equal]
pub struct Layout {
    pub placements: Seq<PlacementModel>,
    pub next_x: int,
    pub next_y: int,
    pub bounds: Option<OutputGeometry>,
}

/// The layout of `order` under a strategy.
pub open spec fn layout_of(order: Seq<OutputModel>, strategy: LayoutStrategy) -> Layout
    decreases order.len(),
{
    if order.len() == 0 {
        Layout { placements: Seq::empty(), next_x: 0, next_y: 0, bounds: None }
    } else {
        let before = layout_of(order.drop_last(), strategy);
        let snapshot = order.last().snapshot;
        let (width, height) = snapshot.size();
        let beside = OutputGeometry::spec_new(before.next_x, 0, width, height);
        let below = OutputGeometry::spec_new(0, before.next_y, width, height);
        let (geometry, next_x, next_y) = match (strategy, snapshot.position) {
            (LayoutStrategy::Vertical, _) => (
                below,
                before.next_x,
                saturated(before.next_y + height),
            ),
            (LayoutStrategy::Preserve, Some(position)) => (
                OutputGeometry::spec_new(position.x as int, position.y as int, width, height),
                before.next_x,
                before.next_y,
            ),
            _ => (beside, saturated(before.next_x + width), before.next_y),
        };
        Layout {
            placements: before.placements.push(PlacementModel { id: snapshot.id, geometry }),
            next_x,
            next_y,
            bounds: Some(
                match before.bounds {
                    Some(bounds) => bounds.joined(geometry),
                    None => geometry,
                },
            ),
        }
    }
}

/// The rectangle assigned to connector `id`.
pub open spec fn placed(placements: Seq<PlacementModel>, id: Seq<char>) -> Option<OutputGeometry>
    decreases placements.len(),
{
    if placements.len() == 0 {
        None
    } else if placements.last().id == id {
        Some(placements.last().geometry)
    } else {
        placed(placements.drop_last(), id)
    }
}

/// The outputs with the rectangles of a layout pass.
pub open spec fn arranged(outputs: Seq<OutputModel>, strategy: LayoutStrategy) -> Seq<OutputModel> {
    let placements = layout_of(in_order(outputs), strategy).placements;
    Seq::new(
        outputs.len(),
        |i: int|
            OutputModel {
                snapshot: outputs[i].snapshot,
                geometry: placed(placements, outputs[i].snapshot.id)->Some_0,
            },
    )
}

impl RegistryModel {
    pub open spec fn active(self) -> bool {
        self.session is Active
    }

    /// The registry with an output in focus.
    pub open spec fn with_focus(self, id: Seq<char>) -> Self {
        RegistryModel { focused: Some(id), ..self }
    }

    /// What is told of an output that is focused: nothing where it was already.
    pub open spec fn focus_told(self, id: Seq<char>) -> Option<ChangeModel> {
        if self.focused == Some(id) {
            None
        } else {
            Some(ChangeModel::FocusChanged(Some(id)))
        }
    }

    /// The connectors are in ascending order; only a connected output of an
    /// active session is focused, and an active session with outputs has one
    /// in focus.
    pub open spec fn wf(self) -> bool {
        &&& ordered_by_connector(snapshots_of(self.outputs))
        &&& self.focused matches Some(id) ==> self.active() && output_of(self.outputs, id) is Some
        &&& self.active() && self.outputs.len() > 0 ==> self.focused is Some
    }
}

#[derive(Debug, Clone)]
struct OutputRecord {
    snapshot: OutputSnapshot,
    geometry: OutputGeometry,
}

impl View for OutputRecord {
    type V = OutputModel;

    closed spec fn view(&self) -> OutputModel {
        OutputModel { snapshot: self.snapshot@, geometry: self.geometry }
    }
}

closed spec fn record_views(list: Seq<OutputRecord>) -> Seq<OutputModel> {
    Seq::new(list.len(), |i: int| list[i]@)
}

/// Multi-output registry used by native and nested backends.
#[derive(Debug, Clone)]
pub struct OutputRegistry {
    outputs: Vec<OutputRecord>,
    focused: Option<String>,
    saved_focus: Option<String>,
    session: SessionState,
}

// ---- reconciliation ------------------------------------------------------------

/// The repaired snapshots that name a connector.
pub open spec fn named(list: Seq<SnapshotModel>) -> Seq<SnapshotModel>
    decreases list.len(),
{
    if list.len() == 0 {
        Seq::empty()
    } else {
        let before = named(list.drop_last());
        if list.last().repaired().id.len() > 0 {
            before.push(list.last().repaired())
        } else {
            before
        }
    }
}

/// The outputs that a discovery reports, ordered by connector.
pub open spec fn incoming(list: Seq<SnapshotModel>) -> Seq<SnapshotModel> {
    by_connector(named(list))
}

/// The additions and changes that a discovery brings.
pub open spec fn updates(outputs: Seq<OutputModel>, found: Seq<SnapshotModel>) -> Seq<ChangeModel>
    decreases found.len(),
{
    if found.len() == 0 {
        Seq::empty()
    } else {
        let before = updates(outputs, found.drop_last());
        match output_of(outputs, found.last().id) {
            None => before.push(ChangeModel::Added(found.last().id)),
            Some(known) => if known.snapshot.same_as(found.last()) {
                before
            } else {
                before.push(ChangeModel::Changed(found.last().id))
            },
        }
    }
}

pub open spec fn names(found: Seq<SnapshotModel>, id: Seq<char>) -> bool {
    exists|i: int| 0 <= i < found.len() && (#[trigger] found[i]).id == id
}

/// The removals that a discovery brings.
pub open spec fn removals(outputs: Seq<OutputModel>, found: Seq<SnapshotModel>) -> Seq<ChangeModel>
    decreases outputs.len(),
{
    if outputs.len() == 0 {
        Seq::empty()
    } else {
        let before = removals(outputs.drop_last(), found);
        if names(found, outputs.last().snapshot.id) {
            before
        } else {
            before.push(ChangeModel::Removed(outputs.last().snapshot.id))
        }
    }
}

/// The outputs that a discovery reports, arranged.
pub open spec fn settled(found: Seq<SnapshotModel>, strategy: LayoutStrategy) -> Seq<OutputModel> {
    arranged(
        Seq::new(
            found.len(),
            |i: int| OutputModel { snapshot: found[i], geometry: fresh_geometry() },
        ),
        strategy,
    )
}

pub open spec fn fresh_geometry() -> OutputGeometry {
    OutputGeometry { x: 0, y: 0, width: 0, height: 0 }
}

/// The focus after the outputs have become `outputs`.
pub open spec fn focus_after(registry: RegistryModel, outputs: Seq<OutputModel>) -> Option<
    Seq<char>,
> {
    if !registry.active() {
        None
    } else {
        match registry.focused {
            Some(id) if output_of(outputs, id) is Some => registry.focused,
            _ => first_id(outputs),
        }
    }
}

/// The registry after a discovery.
pub open spec fn reconciled(
    registry: RegistryModel,
    list: Seq<SnapshotModel>,
    strategy: LayoutStrategy,
) -> RegistryModel {
    let outputs = settled(incoming(list), strategy);
    RegistryModel { outputs, focused: focus_after(registry, outputs), ..registry }
}

/// The changes that a discovery brings, in the order in which they are told.
pub open spec fn reconciliation(
    registry: RegistryModel,
    list: Seq<SnapshotModel>,
    strategy: LayoutStrategy,
) -> Seq<ChangeModel> {
    let found = incoming(list);
    let focus = reconciled(registry, list, strategy).focused;
    let told = updates(registry.outputs, found) + removals(registry.outputs, found);
    if registry.active() && focus != registry.focused {
        told.push(ChangeModel::FocusChanged(focus))
    } else {
        told
    }
}

// ---- focus -----------------------------------------------------------------------

/// Where connector `id` stands in a list.
pub open spec fn position_of(order: Seq<OutputModel>, id: Seq<char>) -> Option<int>
    decreases order.len(),
{
    if order.len() == 0 {
        None
    } else if order.last().snapshot.id == id {
        Some(order.len() - 1)
    } else {
        position_of(order.drop_last(), id)
    }
}

/// The place in focus order after the current one, or before it.
pub open spec fn next_place(registry: RegistryModel, reverse: bool) -> int {
    let order = in_order(registry.outputs);
    let current = match registry.focused {
        Some(id) => match position_of(order, id) {
            Some(place) => place,
            None => 0,
        },
        None => 0,
    };
    if reverse {
        (current + order.len() - 1) % (order.len() as int)
    } else {
        (current + 1) % (order.len() as int)
    }
}

/// How far `to` is from `from` along a direction and across it, where it lies
/// in that direction.
pub open spec fn offset_in(
    from: OutputGeometry,
    to: OutputGeometry,
    direction: OutputDirection,
) -> Option<(nat, nat)> {
    let dx = to.middle().0 - from.middle().0;
    let dy = to.middle().1 - from.middle().1;
    let ahead = match direction {
        OutputDirection::Left => dx < 0,
        OutputDirection::Right => dx > 0,
        OutputDirection::Up => dy < 0,
        OutputDirection::Down => dy > 0,
    };
    if !ahead {
        None
    } else {
        match direction {
            OutputDirection::Left | OutputDirection::Right => Some((magnitude(dx), magnitude(dy))),
            OutputDirection::Up | OutputDirection::Down => Some((magnitude(dy), magnitude(dx))),
        }
    }
}

pub open spec fn nearer(a: (nat, nat), b: (nat, nat)) -> bool {
    a.0 < b.0 || (a.0 == b.0 && a.1 < b.1)
}

/// The output nearest to `from` in a direction, of those at the same distance
/// the first by connector, and its distance.
pub open spec fn nearest(
    outputs: Seq<OutputModel>,
    id: Seq<char>,
    from: OutputGeometry,
    direction: OutputDirection,
) -> Option<(Seq<char>, (nat, nat))>
    decreases outputs.len(),
{
    if outputs.len() == 0 {
        None
    } else {
        let best = nearest(outputs.drop_last(), id, from, direction);
        let output = outputs.last();
        if output.snapshot.id == id {
            best
        } else {
            match (offset_in(from, output.geometry, direction), best) {
                (None, _) => best,
                (Some(offset), None) => Some((output.snapshot.id, offset)),
                (Some(offset), Some((_, least))) => if nearer(offset, least) {
                    Some((output.snapshot.id, offset))
                } else {
                    best
                },
            }
        }
    }
}

/// The output that directional focus moves to.
pub open spec fn focus_target(registry: RegistryModel, direction: OutputDirection) -> Option<
    Seq<char>,
> {
    match registry.focused {
        None => None,
        Some(id) => match output_of(registry.outputs, id) {
            None => None,
            Some(current) => match nearest(registry.outputs, id, current.geometry, direction) {
                Some((target, _)) => Some(target),
                None => None,
            },
        },
    }
}

/// The registry after a session event.
pub open spec fn after_session(registry: RegistryModel, event: SessionEvent) -> RegistryModel {
    match event {
        SessionEvent::Pause => RegistryModel {
            focused: None,
            saved_focus: registry.focused,
            session: SessionState::Paused,
            ..registry
        },
        SessionEvent::Lost => RegistryModel {
            focused: None,
            saved_focus: registry.focused,
            session: SessionState::Lost,
            ..registry
        },
        SessionEvent::Activate { vt } => RegistryModel {
            focused: match registry.saved_focus {
                Some(id) if output_of(registry.outputs, id) is Some => Some(id),
                _ => first_id(registry.outputs),
            },
            saved_focus: None,
            session: SessionState::Active { vt },
            ..registry
        },
    }
}

// ---- the registry ----------------------------------------------------------------

impl OutputRegistry {
    pub closed spec fn model(&self) -> RegistryModel {
        RegistryModel {
            outputs: record_views(self.outputs@),
            focused: option_view(self.focused),
            saved_focus: option_view(self.saved_focus),
            session: self.session,
        }
    }

    pub open spec fn wf(&self) -> bool {
        self.model().wf()
    }

    /// An empty active registry.
    pub fn new() -> (registry: Self)
        ensures
            registry.wf(),
            registry.model() == (RegistryModel {
                outputs: Seq::empty(),
                focused: None,
                saved_focus: None,
                session: SessionState::Active { vt: None },
            }),
    {
        let registry = OutputRegistry {
            outputs: Vec::new(),
            focused: None,
            saved_focus: None,
            session: SessionState::Active { vt: None },
        };
        assert(record_views(registry.outputs@) =~= Seq::empty());
        registry
    }

    /// Current session lifecycle.
    pub fn session_state(&self) -> (state: SessionState)
        ensures
            state == self.model().session,
    {
        self.session
    }

    /// Current focused connector, if any.
    pub fn focused_output(&self) -> (focused: Option<&str>)
        ensures
            option_str_view(focused) == self.model().focused,
    {
        match &self.focused {
            Some(id) => Some(id.as_str()),
            None => None,
        }
    }

    /// The output snapshots in connector order.
    pub fn snapshots(&self) -> (list: Vec<&OutputSnapshot>)
        ensures
            crate::output_discovery::snapshot_ref_views(list@) == snapshots_of(self.model().outputs),
    {
        let mut list: Vec<&OutputSnapshot> = Vec::new();
        let mut i: usize = 0;
        while i < self.outputs.len()
            invariant
                i <= self.outputs.len(),
                list.len() == i,
                forall|k: int| 0 <= k < i ==> (#[trigger] list@[k])@ == self.outputs@[k].snapshot@,
            decreases self.outputs.len() - i,
        {
            list.push(&self.outputs[i].snapshot);
            i += 1;
        }
        assert(crate::output_discovery::snapshot_ref_views(list@) =~= snapshots_of(
            self.model().outputs,
        ));
        list
    }

    /// The index of connector `id`.
    fn index_of(&self, id: &str) -> (found: Option<usize>)
        ensures
            match found {
                Some(i) => i < self.outputs.len() && output_of(self.model().outputs, id@) == Some(
                    self.outputs@[i as int]@,
                ),
                None => output_of(self.model().outputs, id@) is None,
            },
    {
        let ghost all = self.model().outputs;
        let mut found: Option<usize> = None;
        let mut i: usize = 0;
        while i < self.outputs.len()
            invariant
                i <= self.outputs.len(),
                all == record_views(self.outputs@),
                match found {
                    Some(k) => k < self.outputs.len() && output_of(
                        all.subrange(0, i as int),
                        id@,
                    ) == Some(self.outputs@[k as int]@),
                    None => output_of(all.subrange(0, i as int), id@) is None,
                },
            decreases self.outputs.len() - i,
        {
            assert(all.subrange(0, i + 1).drop_last() =~= all.subrange(0, i as int));
            if same(self.outputs[i].snapshot.id.as_str(), id) {
                found = Some(i);
            }
            i += 1;
        }
        assert(all.subrange(0, i as int) =~= all);
        found
    }

    /// One snapshot by connector id.
    pub fn snapshot(&self, id: &str) -> (snapshot: Option<&OutputSnapshot>)
        ensures
            match (snapshot, output_of(self.model().outputs, id@)) {
                (Some(s), Some(output)) => s@ == output.snapshot,
                (None, None) => true,
                _ => false,
            },
    {
        match self.index_of(id) {
            Some(i) => Some(&self.outputs[i].snapshot),
            None => None,
        }
    }

    /// One assigned geometry by connector id.
    pub fn geometry(&self, id: &str) -> (geometry: Option<OutputGeometry>)
        ensures
            geometry == (match output_of(self.model().outputs, id@) {
                Some(output) => Some(output.geometry),
                None => None,
            }),
    {
        match self.index_of(id) {
            Some(i) => Some(self.outputs[i].geometry),
            None => None,
        }
    }

    /// The indices of the outputs in focus order.
    fn ordered_indices(&self) -> (order: Vec<usize>)
        ensures
            order.len() == in_order(self.model().outputs).len(),
            forall|k: int|
                0 <= k < order.len() ==> (#[trigger] order@[k]) < self.outputs.len()
                    && in_order(self.model().outputs)[k] == self.outputs@[order@[k] as int]@,
    {
        let ghost all = self.model().outputs;
        let mut order: Vec<usize> = Vec::new();
        let mut i: usize = 0;
        while i < self.outputs.len()
            invariant
                i <= self.outputs.len(),
                all == record_views(self.outputs@),
                order.len() == with_primary(all.subrange(0, i as int), true).len(),
                forall|k: int|
                    0 <= k < order.len() ==> (#[trigger] order@[k]) < self.outputs.len()
                        && with_primary(all.subrange(0, i as int), true)[k]
                        == self.outputs@[order@[k] as int]@,
            decreases self.outputs.len() - i,
        {
            assert(all.subrange(0, i + 1).drop_last() =~= all.subrange(0, i as int));
            if self.outputs[i].snapshot.primary {
                order.push(i);
            }
            i += 1;
        }
        assert(all.subrange(0, i as int) =~= all);
        let ghost head = with_primary(all, true);
        let mut i: usize = 0;
        while i < self.outputs.len()
            invariant
                i <= self.outputs.len(),
                all == record_views(self.outputs@),
                head == with_primary(all, true),
                order.len() == (head + with_primary(all.subrange(0, i as int), false)).len(),
                forall|k: int|
                    0 <= k < order.len() ==> (#[trigger] order@[k]) < self.outputs.len() && (head
                        + with_primary(all.subrange(0, i as int), false))[k]
                        == self.outputs@[order@[k] as int]@,
            decreases self.outputs.len() - i,
        {
            assert(all.subrange(0, i + 1).drop_last() =~= all.subrange(0, i as int));
            if !self.outputs[i].snapshot.primary {
                order.push(i);
            }
            i += 1;
        }
        assert(all.subrange(0, i as int) =~= all);
        order
    }

    fn first_output_id(&self) -> (id: Option<String>)
        ensures
            option_view(id) == first_id(self.model().outputs),
    {
        let order = self.ordered_indices();
        proof {
            in_order_counts(self.model().outputs);
        }
        if order.len() > 0 {
            Some(self.outputs[order[0]].snapshot.id.clone())
        } else {
            None
        }
    }

    /// Arranges the current outputs and returns their global geometry.
    pub fn arrange(&mut self, strategy: LayoutStrategy) -> (summary: LayoutSummary)
        requires
            old(self).wf(),
        ensures
            final(self).wf(),
            final(self).model() == (RegistryModel {
                outputs: arranged(old(self).model().outputs, strategy),
                ..old(self).model()
            }),
            ({
                let layout = layout_of(in_order(old(self).model().outputs), strategy);
                &&& placement_views(summary.placements@) == layout.placements
                &&& summary.virtual_geometry == layout.bounds
            }),
    {
        let ghost before = self.model();
        let summary = self.place_outputs(strategy);
        proof {
            let all = before.outputs;
            let goal = arranged(all, strategy);
            assert(snapshots_of(goal) =~= snapshots_of(all));
            match before.focused {
                Some(id) => same_connectors(all, goal, id),
                None => {},
            }
        }
        summary
    }

    fn place_outputs(&mut self, strategy: LayoutStrategy) -> (summary: LayoutSummary)
        ensures
            final(self).model() == (RegistryModel {
                outputs: arranged(old(self).model().outputs, strategy),
                ..old(self).model()
            }),
            ({
                let layout = layout_of(in_order(old(self).model().outputs), strategy);
                &&& placement_views(summary.placements@) == layout.placements
                &&& summary.virtual_geometry == layout.bounds
            }),
    {
        let ghost before = self.model();
        let ghost all = before.outputs;
        let ghost sequence = in_order(all);
        let order = self.ordered_indices();
        let mut placements: Vec<OutputPlacement> = Vec::new();
        let mut cursor_x: i32 = 0;
        let mut cursor_y: i32 = 0;
        let mut virtual_geometry: Option<OutputGeometry> = None;
        let mut i: usize = 0;
        assert(sequence.subrange(0, 0) =~= Seq::empty());
        assert(placement_views(placements@) =~= Seq::empty());
        while i < order.len()
            invariant
                i <= order.len(),
                before == self.model(),
                all == before.outputs,
                sequence == in_order(all),
                all == record_views(self.outputs@),
                order.len() == sequence.len(),
                forall|k: int|
                    0 <= k < order.len() ==> (#[trigger] order@[k]) < self.outputs.len()
                        && sequence[k] == self.outputs@[order@[k] as int]@,
                ({
                    let layout = layout_of(sequence.subrange(0, i as int), strategy);
                    &&& placement_views(placements@) == layout.placements
                    &&& cursor_x == layout.next_x
                    &&& cursor_y == layout.next_y
                    &&& virtual_geometry == layout.bounds
                }),
            decreases order.len() - i,
        {
            let ghost done = sequence.subrange(0, i as int);
            let ghost next = sequence.subrange(0, i + 1);
            assert(next.drop_last() =~= done);
            assert(next.last() == self.outputs@[order@[i as int] as int]@);
            let record = &self.outputs[order[i]];
            let (width, height) = record.snapshot.logical_size();
            let geometry = match strategy {
                LayoutStrategy::Horizontal => {
                    let geometry = OutputGeometry::new(cursor_x, 0, width, height);
                    cursor_x = plus(cursor_x, width);
                    geometry
                },
                LayoutStrategy::Vertical => {
                    let geometry = OutputGeometry::new(0, cursor_y, width, height);
                    cursor_y = plus(cursor_y, height);
                    geometry
                },
                LayoutStrategy::Preserve => match record.snapshot.position {
                    Some(position) => OutputGeometry::new(position.x, position.y, width, height),
                    None => {
                        let geometry = OutputGeometry::new(cursor_x, 0, width, height);
                        cursor_x = plus(cursor_x, width);
                        geometry
                    },
                },
            };
            virtual_geometry = match virtual_geometry {
                Some(current) => Some(current.union(geometry)),
                None => Some(geometry),
            };
            let placement = OutputPlacement { id: record.snapshot.id.clone(), geometry };
            let ghost told = placement_views(placements@);
            placements.push(placement);
            assert(placement_views(placements@) =~= told.push(placement@));
            i += 1;
        }
        assert(sequence.subrange(0, i as int) =~= sequence);
        let ghost layout = layout_of(sequence, strategy);
        let ghost goal = arranged(all, strategy);
        let mut j: usize = 0;
        while j < self.outputs.len()
            invariant
                j <= self.outputs.len(),
                self.outputs.len() == all.len(),
                goal == arranged(all, strategy),
                layout == layout_of(in_order(all), strategy),
                placement_views(placements@) == layout.placements,
                forall|k: int| 0 <= k < j ==> (#[trigger] self.outputs@[k])@ == goal[k],
                forall|k: int| j <= k < all.len() ==> (#[trigger] self.outputs@[k])@ == all[k],
                option_view(self.focused) == before.focused,
                option_view(self.saved_focus) == before.saved_focus,
                self.session == before.session,
            decreases self.outputs.len() - j,
        {
            proof {
                every_output_is_placed(all, strategy, j as int);
            }
            let geometry = find_placement(&placements, self.outputs[j].snapshot.id.as_str());
            match geometry {
                Some(geometry) => {
                    self.outputs[j].geometry = geometry;
                },
                None => {},
            }
            assert(self.outputs@[j as int]@ == goal[j as int]);
            j += 1;
        }
        proof {
            assert(record_views(self.outputs@) =~= goal);
        }
        LayoutSummary { placements, virtual_geometry }
    }

    /// Replaces the connected-output set and tells the changes.
    pub fn reconcile(&mut self, snapshots: Vec<OutputSnapshot>, strategy: LayoutStrategy) -> (changes:
        Vec<OutputChange>)
        requires
            old(self).wf(),
        ensures
            final(self).wf(),
            final(self).model() == reconciled(
                old(self).model(),
                snapshot_views(snapshots@),
                strategy,
            ),
            change_views(changes@) == reconciliation(
                old(self).model(),
                snapshot_views(snapshots@),
                strategy,
            ),
    {
        let ghost before = self.model();
        let ghost list = snapshot_views(snapshots@);
        let found = collect_named(snapshots);
        let ghost arrivals = snapshot_views(found@);
        let mut changes: Vec<OutputChange> = Vec::new();
        let mut i: usize = 0;
        assert(arrivals.subrange(0, 0) =~= Seq::empty());
        assert(change_views(changes@) =~= Seq::empty());
        while i < found.len()
            invariant
                i <= found.len(),
                before == self.model(),
                arrivals == snapshot_views(found@),
                change_views(changes@) == updates(before.outputs, arrivals.subrange(0, i as int)),
            decreases found.len() - i,
        {
            assert(arrivals.subrange(0, i + 1).drop_last() =~= arrivals.subrange(0, i as int));
            assert(arrivals.subrange(0, i + 1).last() == found@[i as int]@);
            let id = found[i].id.clone();
            match self.index_of(id.as_str()) {
                Some(known) => {
                    if !self.outputs[known].snapshot.is_same(&found[i]) {
                        let change = OutputChange::Changed(id);
                        proof {
                            change_views_push(changes@, change);
                        }
                        changes.push(change);
                    }
                },
                None => {
                    let change = OutputChange::Added(id);
                    proof {
                        change_views_push(changes@, change);
                    }
                    changes.push(change);
                },
            }
            i += 1;
        }
        assert(arrivals.subrange(0, i as int) =~= arrivals);
        let ghost told = updates(before.outputs, arrivals);
        let mut j: usize = 0;
        assert(told + removals(before.outputs.subrange(0, 0), arrivals) =~= told);
        while j < self.outputs.len()
            invariant
                j <= self.outputs.len(),
                before == self.model(),
                before.outputs == record_views(self.outputs@),
                arrivals == snapshot_views(found@),
                change_views(changes@) == told + removals(
                    before.outputs.subrange(0, j as int),
                    arrivals,
                ),
            decreases self.outputs.len() - j,
        {
            let ghost done = removals(before.outputs.subrange(0, j as int), arrivals);
            assert(before.outputs.subrange(0, j + 1).drop_last() =~= before.outputs.subrange(
                0,
                j as int,
            ));
            assert(before.outputs.subrange(0, j + 1).last() == self.outputs@[j as int]@);
            if !names_connector(&found, self.outputs[j].snapshot.id.as_str()) {
                let change = OutputChange::Removed(self.outputs[j].snapshot.id.clone());
                proof {
                    change_views_push(changes@, change);
                    assert((told + done).push(change@) =~= told + done.push(change@));
                }
                changes.push(change);
            }
            j += 1;
        }
        assert(before.outputs.subrange(0, j as int) =~= before.outputs);
        self.outputs = fresh_records(found);
        let ghost fresh = record_views(self.outputs@);
        let previous = copy_option(&self.focused);
        self.focused = None;
        proof {
            by_connector_is_ordered(named(list));
            assert(snapshots_of(fresh) =~= arrivals);
        }
        self.place_outputs(strategy);
        let ghost outputs = record_views(self.outputs@);
        proof {
            assert(fresh =~= Seq::new(
                arrivals.len(),
                |i: int| OutputModel { snapshot: arrivals[i], geometry: fresh_geometry() },
            ));
            assert(outputs == settled(arrivals, strategy));
            assert(snapshots_of(outputs) =~= arrivals);
            first_is_connected(outputs);
        }
        match self.session {
            SessionState::Active { .. } => {
                let kept = match &previous {
                    Some(id) => self.index_of(id.as_str()).is_some(),
                    None => false,
                };
                if kept {
                    self.focused = previous;
                } else {
                    self.focused = self.first_output_id();
                    if !same_option(&previous, &self.focused) {
                        let change = OutputChange::FocusChanged(copy_option(&self.focused));
                        proof {
                            change_views_push(changes@, change);
                        }
                        changes.push(change);
                    }
                }
            },
            _ => {},
        }
        changes
    }

    /// Focuses one connected output.
    pub fn focus_output(&mut self, id: &str) -> (result: Result<Option<OutputChange>, OutputError>)
        requires
            old(self).wf(),
        ensures
            final(self).wf(),
            ({
                let before = old(self).model();
                match result {
                    Err(OutputError::UnknownOutput(name)) => output_of(before.outputs, id@) is None
                        && name@ == id@ && final(self).model() == before,
                    Err(OutputError::SessionInactive) => output_of(before.outputs, id@) is Some
                        && !before.active() && final(self).model() == before,
                    Err(OutputError::InvalidVt(_)) => false,
                    Ok(change) => {
                        &&& output_of(before.outputs, id@) is Some
                        &&& before.active()
                        &&& final(self).model() == before.with_focus(id@)
                        &&& change_option(change) == before.focus_told(id@)
                    },
                }
            }),
    {
        if self.index_of(id).is_none() {
            return Err(OutputError::UnknownOutput(id.to_owned()));
        }
        match self.session {
            SessionState::Active { .. } => {},
            _ => return Err(OutputError::SessionInactive),
        }
        if crate::text::option_is(&self.focused, id) {
            return Ok(None);
        }
        self.focused = Some(id.to_owned());
        Ok(Some(OutputChange::FocusChanged(copy_option(&self.focused))))
    }

    /// Focuses the next or previous output in focus order.
    pub fn focus_next(&mut self, reverse: bool) -> (change: Option<OutputChange>)
        requires
            old(self).wf(),
        ensures
            final(self).wf(),
            ({
                let before = old(self).model();
                let order = in_order(before.outputs);
                if before.outputs.len() == 0 || !before.active() {
                    change is None && final(self).model() == before
                } else {
                    let id = order[next_place(before, reverse)].snapshot.id;
                    &&& 0 <= next_place(before, reverse) < order.len()
                    &&& final(self).model() == before.with_focus(id)
                    &&& change_option(change) == Some(ChangeModel::FocusChanged(Some(id)))
                }
            }),
    {
        let ghost before = self.model();
        let ghost sequence = in_order(before.outputs);
        let order = self.ordered_indices();
        proof {
            in_order_counts(before.outputs);
        }
        if order.len() == 0 {
            return None;
        }
        match self.session {
            SessionState::Active { .. } => {},
            _ => return None,
        }
        let mut current: usize = 0;
        match &self.focused {
            Some(focused) => {
                let mut found: Option<usize> = None;
                let mut i: usize = 0;
                while i < order.len()
                    invariant
                        i <= order.len(),
                        order.len() == sequence.len(),
                        forall|k: int|
                            0 <= k < order.len() ==> (#[trigger] order@[k]) < self.outputs.len()
                                && sequence[k] == self.outputs@[order@[k] as int]@,
                        match found {
                            Some(k) => k < i && position_of(
                                sequence.subrange(0, i as int),
                                focused@,
                            ) == Some(k as int),
                            None => position_of(sequence.subrange(0, i as int), focused@) is None,
                        },
                    decreases order.len() - i,
                {
                    assert(sequence.subrange(0, i + 1).drop_last() =~= sequence.subrange(
                        0,
                        i as int,
                    ));
                    assert(sequence.subrange(0, i + 1).last() == sequence[i as int]);
                    if same(self.outputs[order[i]].snapshot.id.as_str(), focused.as_str()) {
                        found = Some(i);
                    }
                    i += 1;
                }
                assert(sequence.subrange(0, i as int) =~= sequence);
                match found {
                    Some(i) => {
                        current = i;
                    },
                    None => {},
                }
            },
            None => {},
        }
        let next: usize = if reverse {
            if current == 0 {
                order.len() - 1
            } else {
                current - 1
            }
        } else {
            if current + 1 == order.len() {
                0
            } else {
                current + 1
            }
        };
        proof {
            let n = order.len() as int;
            if reverse && current > 0 {
                assert((current + n - 1) % n == current - 1) by (nonlinear_arith)
                    requires
                        0 < current < n,
                ;
            } else if reverse {
                assert((n - 1) % n == n - 1) by (nonlinear_arith)
                    requires
                        0 < n,
                ;
            } else if current + 1 == n {
                assert(n % n == 0) by (nonlinear_arith)
                    requires
                        0 < n,
                ;
            } else {
                assert((current + 1) % n == current + 1) by (nonlinear_arith)
                    requires
                        0 <= current + 1 < n,
                ;
            }
            assert(next == next_place(before, reverse));
            in_order_is_connected(before.outputs, next as int);
        }
        self.focused = Some(self.outputs[order[next]].snapshot.id.clone());
        Some(OutputChange::FocusChanged(copy_option(&self.focused)))
    }

    /// Focuses the nearest output in a spatial direction.
    pub fn focus_direction(&mut self, direction: OutputDirection) -> (change: Option<OutputChange>)
        requires
            old(self).wf(),
        ensures
            final(self).wf(),
            match focus_target(old(self).model(), direction) {
                None => change is None && final(self).model() == old(self).model(),
                Some(id) => {
                    &&& final(self).model() == (RegistryModel {
                        focused: Some(id),
                        ..old(self).model()
                    })
                    &&& change_option(change) == Some(ChangeModel::FocusChanged(Some(id)))
                },
            },
    {
        let ghost before = self.model();
        let current_id = match copy_option(&self.focused) {
            Some(id) => id,
            None => return None,
        };
        let current = match self.index_of(current_id.as_str()) {
            Some(index) => self.outputs[index].geometry,
            None => return None,
        };
        let here = current.center();
        let ghost all = before.outputs;
        let mut best: Option<usize> = None;
        let mut least: (u64, u64) = (0, 0);
        let mut i: usize = 0;
        while i < self.outputs.len()
            invariant
                i <= self.outputs.len(),
                all == record_views(self.outputs@),
                (here.0 as int, here.1 as int) == current.middle(),
                match best {
                    Some(k) => k < i && nearest(
                        all.subrange(0, i as int),
                        current_id@,
                        current,
                        direction,
                    ) == Some(
                        (self.outputs@[k as int].snapshot.id@, (least.0 as nat, least.1 as nat)),
                    ),
                    None => nearest(all.subrange(0, i as int), current_id@, current, direction)
                        is None,
                },
            decreases self.outputs.len() - i,
        {
            assert(all.subrange(0, i + 1).drop_last() =~= all.subrange(0, i as int));
            assert(all.subrange(0, i + 1).last() == self.outputs@[i as int]@);
            if !same(self.outputs[i].snapshot.id.as_str(), current_id.as_str()) {
                let center = self.outputs[i].geometry.center();
                let dx: i64 = center.0 - here.0;
                let dy: i64 = center.1 - here.1;
                let (ahead, offset): (bool, (u64, u64)) = match direction {
                    OutputDirection::Left => (dx < 0, (magnitude_of(dx), magnitude_of(dy))),
                    OutputDirection::Right => (dx > 0, (magnitude_of(dx), magnitude_of(dy))),
                    OutputDirection::Up => (dy < 0, (magnitude_of(dy), magnitude_of(dx))),
                    OutputDirection::Down => (dy > 0, (magnitude_of(dy), magnitude_of(dx))),
                };
                if ahead {
                    match best {
                        None => {
                            best = Some(i);
                            least = offset;
                        },
                        Some(_) => {
                            if offset.0 < least.0 || (offset.0 == least.0 && offset.1 < least.1) {
                                best = Some(i);
                                least = offset;
                            }
                        },
                    }
                }
            }
            i += 1;
        }
        assert(all.subrange(0, i as int) =~= all);
        match best {
            Some(k) => {
                proof {
                    connected_at(all, k as int);
                }
                self.focused = Some(self.outputs[k].snapshot.id.clone());
                Some(OutputChange::FocusChanged(copy_option(&self.focused)))
            },
            None => None,
        }
    }

    /// Applies a seat pause, activation or loss and keeps a recoverable focus.
    pub fn session_event(&mut self, event: SessionEvent) -> (changes: Vec<OutputChange>)
        requires
            old(self).wf(),
        ensures
            final(self).wf(),
            final(self).model() == after_session(old(self).model(), event),
            change_views(changes@) == seq![
                ChangeModel::SessionChanged(after_session(old(self).model(), event).session),
                ChangeModel::FocusChanged(after_session(old(self).model(), event).focused),
            ],
    {
        proof {
            first_is_connected(self.model().outputs);
        }
        match event {
            SessionEvent::Pause => {
                self.saved_focus = self.focused.take();
                self.session = SessionState::Paused;
            },
            SessionEvent::Activate { vt } => {
                self.session = SessionState::Active { vt };
                let saved = self.saved_focus.take();
                let kept = match &saved {
                    Some(id) => self.index_of(id.as_str()).is_some(),
                    None => false,
                };
                if kept {
                    self.focused = saved;
                } else {
                    self.focused = self.first_output_id();
                }
            },
            SessionEvent::Lost => {
                self.saved_focus = self.focused.take();
                self.session = SessionState::Lost;
            },
        }
        let mut changes: Vec<OutputChange> = Vec::new();
        changes.push(OutputChange::SessionChanged(self.session));
        changes.push(OutputChange::FocusChanged(copy_option(&self.focused)));
        assert(change_views(changes@) =~= seq![
            ChangeModel::SessionChanged(self.session),
            ChangeModel::FocusChanged(option_view(self.focused)),
        ]);
        changes
    }

    /// Validates a requested VT switch before it is passed to libseat.
    pub fn request_vt(&self, vt: i32) -> (result: Result<VtRequest, OutputError>)
        ensures
            match result {
                Ok(request) => 1 <= vt <= 63 && self.model().active() && request.vt == vt,
                Err(OutputError::InvalidVt(number)) => !(1 <= vt <= 63) && number == vt,
                Err(OutputError::SessionInactive) => 1 <= vt <= 63 && !self.model().active(),
                Err(OutputError::UnknownOutput(_)) => false,
            },
    {
        if !(1 <= vt && vt <= 63) {
            return Err(OutputError::InvalidVt(vt));
        }
        match self.session {
            SessionState::Active { .. } => Ok(VtRequest { vt }),
            _ => Err(OutputError::SessionInactive),
        }
    }
}

impl Default for OutputRegistry {
    fn default() -> (registry: Self)
        ensures
            registry.wf(),
            registry.model() == (RegistryModel {
                outputs: Seq::empty(),
                focused: None,
                saved_focus: None,
                session: SessionState::Active { vt: None },
            }),
    {
        OutputRegistry::new()
    }
}

fn same_option(a: &Option<String>, b: &Option<String>) -> (yes: bool)
    ensures
        yes == (option_view(*a) == option_view(*b)),
{
    match (a, b) {
        (Some(x), Some(y)) => same(x.as_str(), y.as_str()),
        (None, None) => true,
        _ => false,
    }
}

fn find_placement(placements: &Vec<OutputPlacement>, id: &str) -> (geometry: Option<OutputGeometry>)
    ensures
        geometry == placed(placement_views(placements@), id@),
{
    let ghost all = placement_views(placements@);
    let mut geometry: Option<OutputGeometry> = None;
    let mut i: usize = 0;
    while i < placements.len()
        invariant
            i <= placements.len(),
            all == placement_views(placements@),
            geometry == placed(all.subrange(0, i as int), id@),
        decreases placements.len() - i,
    {
        assert(all.subrange(0, i + 1).drop_last() =~= all.subrange(0, i as int));
        assert(all.subrange(0, i + 1).last() == placements@[i as int]@);
        if same(placements[i].id.as_str(), id) {
            geometry = Some(placements[i].geometry);
        }
        i += 1;
    }
    assert(all.subrange(0, i as int) =~= all);
    geometry
}

fn names_connector(found: &Vec<OutputSnapshot>, id: &str) -> (yes: bool)
    ensures
        yes == names(snapshot_views(found@), id@),
{
    let mut i: usize = 0;
    while i < found.len()
        invariant
            i <= found.len(),
            forall|k: int| 0 <= k < i ==> (#[trigger] found@[k]).id@ != id@,
        decreases found.len() - i,
    {
        if same(found[i].id.as_str(), id) {
            assert(snapshot_views(found@)[i as int].id == id@);
            return true;
        }
        i += 1;
    }
    assert forall|k: int| 0 <= k < snapshot_views(found@).len() implies (#[trigger] snapshot_views(
        found@,
    )[k]).id != id@ by {
        assert(found@[k].id@ != id@);
    }
    false
}

fn insert_owned(list: &mut Vec<OutputSnapshot>, snapshot: OutputSnapshot)
    ensures
        snapshot_views(final(list)@) == insert_snapshot(snapshot_views(old(list)@), snapshot@),
{
    let ghost before = snapshot_views(list@);
    let mut at: usize = list.len();
    while at > 0 && comes_before(snapshot.id.as_str(), list[at - 1].id.as_str())
        invariant
            at <= list.len(),
            before == snapshot_views(list@),
            list@ == old(list)@,
            forall|k: int|
                at <= k < list.len() ==> precedes(snapshot@.id, (#[trigger] before[k]).id),
        decreases at,
    {
        assert(before[at - 1] == list@[at - 1]@);
        at -= 1;
    }
    proof {
        assert(at > 0 ==> before[at - 1] == list@[at - 1]@);
        insert_snapshot_skips(before, snapshot@, at as int);
    }
    let replaces = at > 0 && same(list[at - 1].id.as_str(), snapshot.id.as_str());
    let ghost said = snapshot@;
    if replaces {
        list.set(at - 1, snapshot);
        assert(snapshot_views(list@) =~= before.update(at - 1, said));
    } else {
        list.insert(at, snapshot);
        assert(snapshot_views(list@) =~= before.insert(at as int, said));
    }
}

/// The repaired snapshots that name a connector, ordered by connector.
fn collect_named(snapshots: Vec<OutputSnapshot>) -> (found: Vec<OutputSnapshot>)
    ensures
        snapshot_views(found@) == incoming(snapshot_views(snapshots@)),
{
    let ghost all = snapshot_views(snapshots@);
    let mut found: Vec<OutputSnapshot> = Vec::new();
    let mut i: usize = 0;
    assert(all.subrange(0, 0) =~= Seq::empty());
    assert(snapshot_views(found@) =~= incoming(all.subrange(0, 0)));
    while i < snapshots.len()
        invariant
            i <= snapshots.len(),
            all == snapshot_views(snapshots@),
            snapshot_views(found@) == incoming(all.subrange(0, i as int)),
        decreases snapshots.len() - i,
    {
        assert(all.subrange(0, i + 1).drop_last() =~= all.subrange(0, i as int));
        assert(all.subrange(0, i + 1).last() == snapshots@[i as int]@);
        let snapshot = snapshots[i].duplicate().sanitized();
        let ghost before = named(all.subrange(0, i as int));
        assert(before.push(snapshot@).drop_last() =~= before);
        if chars_of(snapshot.id.as_str()).len() > 0 {
            insert_owned(&mut found, snapshot);
        }
        i += 1;
    }
    assert(all.subrange(0, i as int) =~= all);
    found
}

fn fresh_records(found: Vec<OutputSnapshot>) -> (records: Vec<OutputRecord>)
    ensures
        record_views(records@) == Seq::new(
            found@.len(),
            |i: int| OutputModel { snapshot: found@[i]@, geometry: fresh_geometry() },
        ),
{
    let mut records: Vec<OutputRecord> = Vec::new();
    let mut i: usize = 0;
    while i < found.len()
        invariant
            i <= found.len(),
            records.len() == i,
            forall|k: int|
                0 <= k < i ==> (#[trigger] records@[k])@ == (OutputModel {
                    snapshot: found@[k]@,
                    geometry: fresh_geometry(),
                }),
        decreases found.len() - i,
    {
        let snapshot = found[i].duplicate();
        records.push(
            OutputRecord {
                snapshot,
                geometry: OutputGeometry { x: 0, y: 0, width: 0, height: 0 },
            },
        );
        i += 1;
    }
    assert(record_views(records@) =~= Seq::new(
        found@.len(),
        |i: int| OutputModel { snapshot: found@[i]@, geometry: fresh_geometry() },
    ));
    records
}

// ---- facts about the model -----------------------------------------------------

proof fn in_order_counts(outputs: Seq<OutputModel>)
    ensures
        in_order(outputs).len() == outputs.len(),
    decreases outputs.len(),
{
    if outputs.len() > 0 {
        in_order_counts(outputs.drop_last());
    }
}

proof fn connected_at(outputs: Seq<OutputModel>, i: int)
    requires
        0 <= i < outputs.len(),
    ensures
        output_of(outputs, outputs[i].snapshot.id) is Some,
    decreases outputs.len(),
{
    if i < outputs.len() - 1 {
        connected_at(outputs.drop_last(), i);
    }
}

proof fn group_is_connected(outputs: Seq<OutputModel>, primary: bool, k: int)
    requires
        0 <= k < with_primary(outputs, primary).len(),
    ensures
        outputs.contains(with_primary(outputs, primary)[k]),
        with_primary(outputs, primary)[k].snapshot.primary == primary,
    decreases outputs.len(),
{
    let rest = outputs.drop_last();
    if k < with_primary(rest, primary).len() {
        group_is_connected(rest, primary, k);
        let q = choose|q: int| 0 <= q < rest.len() && rest[q] == with_primary(rest, primary)[k];
        assert(outputs[q] == with_primary(outputs, primary)[k]);
    } else {
        assert(outputs[outputs.len() - 1] == with_primary(outputs, primary)[k]);
    }
}

proof fn in_order_is_connected(outputs: Seq<OutputModel>, k: int)
    requires
        0 <= k < in_order(outputs).len(),
    ensures
        output_of(outputs, in_order(outputs)[k].snapshot.id) is Some,
{
    let head = with_primary(outputs, true);
    if k < head.len() {
        group_is_connected(outputs, true, k);
    } else {
        group_is_connected(outputs, false, k - head.len());
    }
    let q = choose|q: int| 0 <= q < outputs.len() && outputs[q] == in_order(outputs)[k];
    connected_at(outputs, q);
}

proof fn first_is_connected(outputs: Seq<OutputModel>)
    ensures
        first_id(outputs) is Some <==> outputs.len() > 0,
        first_id(outputs) matches Some(id) ==> output_of(outputs, id) is Some,
{
    in_order_counts(outputs);
    if outputs.len() > 0 {
        in_order_is_connected(outputs, 0);
    }
}

proof fn same_connectors(a: Seq<OutputModel>, b: Seq<OutputModel>, id: Seq<char>)
    requires
        snapshots_of(a) == snapshots_of(b),
    ensures
        output_of(a, id) is Some <==> output_of(b, id) is Some,
    decreases a.len(),
{
    assert(snapshots_of(a).len() == a.len());
    assert(snapshots_of(b).len() == b.len());
    if a.len() > 0 {
        let n = a.len() - 1;
        assert(snapshots_of(a)[n] == a[n].snapshot);
        assert(snapshots_of(b)[n] == b[n].snapshot);
        assert(a.last() == a[n] && b.last() == b[n]);
        assert(snapshots_of(a.drop_last()) =~= snapshots_of(a).drop_last());
        assert(snapshots_of(b.drop_last()) =~= snapshots_of(b).drop_last());
        same_connectors(a.drop_last(), b.drop_last(), id);
    }
}

proof fn layout_places(order: Seq<OutputModel>, strategy: LayoutStrategy, k: int)
    requires
        0 <= k < order.len(),
    ensures
        placed(layout_of(order, strategy).placements, order[k].snapshot.id) is Some,
    decreases order.len(),
{
    let before = layout_of(order.drop_last(), strategy);
    let after = layout_of(order, strategy);
    assert(after.placements.drop_last() =~= before.placements);
    if k < order.len() - 1 {
        layout_places(order.drop_last(), strategy, k);
    }
}

proof fn group_holds(outputs: Seq<OutputModel>, i: int)
    requires
        0 <= i < outputs.len(),
    ensures
        with_primary(outputs, outputs[i].snapshot.primary).contains(outputs[i]),
    decreases outputs.len(),
{
    let primary = outputs[i].snapshot.primary;
    let group = with_primary(outputs, primary);
    if i < outputs.len() - 1 {
        group_holds(outputs.drop_last(), i);
        let before = with_primary(outputs.drop_last(), primary);
        let q = choose|q: int| 0 <= q < before.len() && before[q] == outputs[i];
        assert(group[q] == outputs[i]);
    } else {
        assert(group[group.len() - 1] == outputs[i]);
    }
}

/// A layout pass assigns a rectangle to every output.
pub proof fn every_output_is_placed(outputs: Seq<OutputModel>, strategy: LayoutStrategy, i: int)
    requires
        0 <= i < outputs.len(),
    ensures
        placed(layout_of(in_order(outputs), strategy).placements, outputs[i].snapshot.id) is Some,
{
    group_holds(outputs, i);
    let order = in_order(outputs);
    let head = with_primary(outputs, true);
    let group = with_primary(outputs, outputs[i].snapshot.primary);
    let q = choose|q: int| 0 <= q < group.len() && group[q] == outputs[i];
    let k = if outputs[i].snapshot.primary {
        q
    } else {
        head.len() + q
    };
    assert(order[k] == outputs[i]);
    layout_places(order, strategy, k);
}

// ---- laws ------------------------------------------------------------------------

/// A horizontal layout puts each output where the one before it ends, the
/// first at the origin.
pub proof fn horizontal_outputs_stand_side_by_side(order: Seq<OutputModel>, k: int)
    requires
        0 <= k < order.len(),
    ensures
        ({
            let placements = layout_of(order, LayoutStrategy::Horizontal).placements;
            &&& placements.len() == order.len()
            &&& placements[k].id == order[k].snapshot.id
            &&& placements[k].geometry.y == 0
            &&& placements[k].geometry.x == (if k == 0 {
                0
            } else {
                placements[k - 1].geometry.right_edge()
            })
        }),
{
    horizontal_layout(order, k);
}

proof fn horizontal_layout(order: Seq<OutputModel>, k: int)
    requires
        0 <= k <= order.len(),
    ensures
        ({
            let layout = layout_of(order, LayoutStrategy::Horizontal);
            let placements = layout.placements;
            &&& placements.len() == order.len()
            &&& i32::MIN <= layout.next_x <= i32::MAX
            &&& layout.next_x == (if order.len() == 0 {
                0
            } else {
                placements.last().geometry.right_edge()
            })
            &&& k < order.len() ==> {
                &&& placements[k].id == order[k].snapshot.id
                &&& placements[k].geometry.y == 0
                &&& placements[k].geometry.x == (if k == 0 {
                    0
                } else {
                    placements[k - 1].geometry.right_edge()
                })
            }
        }),
    decreases order.len(),
{
    if order.len() > 0 {
        let rest = order.drop_last();
        horizontal_layout(
            rest,
            if k < rest.len() {
                k
            } else {
                rest.len() as int
            },
        );
        scaled_lengths_fit(order.last().snapshot);
    }
}

proof fn scaled_lengths_fit(snapshot: SnapshotModel)
    ensures
        1 <= snapshot.size().0 <= i32::MAX,
        1 <= snapshot.size().1 <= i32::MAX,
{
}

/// Pausing a session and activating it again brings the focus back to where
/// it was.
pub proof fn activation_restores_focus(registry: RegistryModel, vt: Option<i32>)
    requires
        registry.wf(),
        registry.focused is Some,
    ensures
        ({
            let paused = after_session(registry, SessionEvent::Pause);
            let active = after_session(paused, SessionEvent::Activate { vt });
            &&& paused.focused is None
            &&& active.focused == registry.focused
            &&& active.outputs == registry.outputs
            &&& active.session == SessionState::Active { vt }
        }),
{
}

/// After a discovery no output stays that was not reported, whatever the
/// registry held before.
pub proof fn stale_outputs_are_dropped(
    registry: RegistryModel,
    list: Seq<SnapshotModel>,
    strategy: LayoutStrategy,
    id: Seq<char>,
)
    requires
        !names(incoming(list), id),
    ensures
        output_of(reconciled(registry, list, strategy).outputs, id) is None,
        reconciled(registry, list, strategy).focused != Some(id),
{
    let outputs = reconciled(registry, list, strategy).outputs;
    assert(snapshots_of(outputs) =~= incoming(list));
    not_named_not_connected(outputs, id);
    first_is_connected(outputs);
}

proof fn not_named_not_connected(outputs: Seq<OutputModel>, id: Seq<char>)
    requires
        !names(snapshots_of(outputs), id),
    ensures
        output_of(outputs, id) is None,
    decreases outputs.len(),
{
    if outputs.len() > 0 {
        let all = snapshots_of(outputs);
        assert(all[outputs.len() - 1].id != id);
        let rest = snapshots_of(outputs.drop_last());
        assert forall|i: int| 0 <= i < rest.len() implies (#[trigger] rest[i]).id != id by {
            assert(all[i].id != id);
        }
        not_named_not_connected(outputs.drop_last(), id);
    }
}

/// A discovery that is repeated without a change tells nothing and keeps the
/// focus.
pub proof fn repeated_discovery_changes_nothing(
    registry: RegistryModel,
    list: Seq<SnapshotModel>,
    strategy: LayoutStrategy,
)
    requires
        registry.wf(),
    ensures
        ({
            let once = reconciled(registry, list, strategy);
            &&& reconciliation(once, list, strategy) == Seq::<ChangeModel>::empty()
            &&& reconciled(once, list, strategy) == once
        }),
{
    let found = incoming(list);
    let once = reconciled(registry, list, strategy);
    assert(snapshots_of(once.outputs) =~= found);
    by_connector_is_ordered(named(list));
    named_are_repaired(list);
    first_is_connected(once.outputs);
    no_updates(once.outputs, found, found.len() as int);
    no_removals(once.outputs, found, found.len() as int);
    assert(found.subrange(0, found.len() as int) =~= found);
    assert(once.outputs.subrange(0, found.len() as int) =~= once.outputs);
    assert(reconciliation(once, list, strategy) =~= Seq::empty());
}

proof fn named_are_repaired(list: Seq<SnapshotModel>)
    ensures
        forall|i: int|
            0 <= i < named(list).len() ==> !crate::binary64::not_a_number(
                (#[trigger] named(list)[i]).scale,
            ),
    decreases list.len(),
{
    if list.len() > 0 {
        named_are_repaired(list.drop_last());
    }
}

proof fn found_at(outputs: Seq<OutputModel>, i: int)
    requires
        0 <= i < outputs.len(),
        ordered_by_connector(snapshots_of(outputs)),
    ensures
        output_of(outputs, outputs[i].snapshot.id) == Some(outputs[i]),
    decreases outputs.len(),
{
    let all = snapshots_of(outputs);
    if i < outputs.len() - 1 {
        assert(precedes(all[i].id, all[outputs.len() - 1].id));
        precedes_is_total(all[i].id, all[outputs.len() - 1].id);
        let rest = snapshots_of(outputs.drop_last());
        assert forall|a: int, b: int| 0 <= a < b < rest.len() implies precedes(
            (#[trigger] rest[a]).id,
            (#[trigger] rest[b]).id,
        ) by {
            assert(precedes(all[a].id, all[b].id));
        }
        found_at(outputs.drop_last(), i);
    }
}

proof fn no_updates(outputs: Seq<OutputModel>, found: Seq<SnapshotModel>, n: int)
    requires
        snapshots_of(outputs) == found,
        ordered_by_connector(found),
        0 <= n <= found.len(),
        forall|i: int|
            0 <= i < found.len() ==> !crate::binary64::not_a_number((#[trigger] found[i]).scale),
    ensures
        updates(outputs, found.subrange(0, n)) == Seq::<ChangeModel>::empty(),
    decreases n,
{
    if n > 0 {
        no_updates(outputs, found, n - 1);
        assert(found.subrange(0, n).drop_last() =~= found.subrange(0, n - 1));
        assert(found[n - 1] == outputs[n - 1].snapshot);
        found_at(outputs, n - 1);
        assert(found[n - 1].same_as(found[n - 1]));
    }
}

proof fn no_removals(outputs: Seq<OutputModel>, found: Seq<SnapshotModel>, n: int)
    requires
        snapshots_of(outputs) == found,
        0 <= n <= outputs.len(),
    ensures
        removals(outputs.subrange(0, n), found) == Seq::<ChangeModel>::empty(),
    decreases n,
{
    if n > 0 {
        no_removals(outputs, found, n - 1);
        assert(outputs.subrange(0, n).drop_last() =~= outputs.subrange(0, n - 1));
        assert(found[n - 1] == outputs[n - 1].snapshot);
    }
}

/// Directional focus only ever moves to an output whose center lies in that
/// direction.
pub proof fn directional_focus_moves_ahead(registry: RegistryModel, direction: OutputDirection)
    requires
        focus_target(registry, direction) is Some,
    ensures
        exists|i: int|
            0 <= i < registry.outputs.len() && (#[trigger] registry.outputs[i]).snapshot.id
                == focus_target(registry, direction)->Some_0 && offset_in(
                output_of(registry.outputs, registry.focused->Some_0)->Some_0.geometry,
                registry.outputs[i].geometry,
                direction,
            ) is Some,
{
    let id = registry.focused->Some_0;
    let from = output_of(registry.outputs, id)->Some_0.geometry;
    nearest_is_ahead(registry.outputs, id, from, direction);
}

proof fn nearest_is_ahead(
    outputs: Seq<OutputModel>,
    id: Seq<char>,
    from: OutputGeometry,
    direction: OutputDirection,
)
    ensures
        nearest(outputs, id, from, direction) matches Some((target, offset)) ==> exists|i: int|
            0 <= i < outputs.len() && (#[trigger] outputs[i]).snapshot.id == target && offset_in(
                from,
                outputs[i].geometry,
                direction,
            ) == Some(offset),
    decreases outputs.len(),
{
    if outputs.len() > 0 {
        let rest = outputs.drop_last();
        nearest_is_ahead(rest, id, from, direction);
        match nearest(outputs, id, from, direction) {
            Some((target, offset)) => {
                if nearest(rest, id, from, direction) == Some((target, offset)) {
                    let i = choose|i: int|
                        0 <= i < rest.len() && (#[trigger] rest[i]).snapshot.id == target
                            && offset_in(from, rest[i].geometry, direction) == Some(offset);
                    assert(outputs[i] == rest[i]);
                } else {
                    assert(outputs[outputs.len() - 1].snapshot.id == target);
                }
            },
            None => {},
        }
    }
}

/// Whether a discovery reports connector `id`: some snapshot has it, without
/// white space around it.
pub open spec fn reports(list: Seq<SnapshotModel>, id: Seq<char>) -> bool {
    id.len() > 0 && exists|i: int| 0 <= i < list.len() && trimmed((#[trigger] list[i]).id) == id
}

/// How often a change is told.
pub open spec fn tellings(told: Seq<ChangeModel>, change: ChangeModel) -> nat
    decreases told.len(),
{
    if told.len() == 0 {
        0
    } else {
        tellings(told.drop_last(), change) + if told.last() == change {
            1nat
        } else {
            0nat
        }
    }
}

proof fn tellings_add_up(a: Seq<ChangeModel>, b: Seq<ChangeModel>, change: ChangeModel)
    ensures
        tellings(a + b, change) == tellings(a, change) + tellings(b, change),
    decreases b.len(),
{
    if b.len() == 0 {
        assert(a + b =~= a);
    } else {
        tellings_add_up(a, b.drop_last(), change);
        assert((a + b).drop_last() =~= a + b.drop_last());
        assert((a + b).last() == b.last());
    }
}

proof fn telling_one_more(told: Seq<ChangeModel>, last: ChangeModel, change: ChangeModel)
    ensures
        tellings(told.push(last), change) == tellings(told, change) + if last == change {
            1nat
        } else {
            0nat
        },
{
    assert(told.push(last).drop_last() =~= told);
}

proof fn names_of_the_last(found: Seq<SnapshotModel>, id: Seq<char>)
    requires
        found.len() > 0,
    ensures
        names(found, id) <==> names(found.drop_last(), id) || found.last().id == id,
{
    let rest = found.drop_last();
    assert(found[found.len() - 1] == found.last());
    if names(rest, id) {
        let k = choose|k: int| 0 <= k < rest.len() && (#[trigger] rest[k]).id == id;
        assert(found[k].id == id);
    }
    if names(found, id) && found.last().id != id {
        let k = choose|k: int| 0 <= k < found.len() && (#[trigger] found[k]).id == id;
        assert(rest[k].id == id);
    }
}

proof fn inserting_names_one_more(list: Seq<SnapshotModel>, snapshot: SnapshotModel, id: Seq<char>)
    ensures
        names(insert_snapshot(list, snapshot), id) <==> names(list, id) || snapshot.id == id,
    decreases list.len(),
{
    let result = insert_snapshot(list, snapshot);
    if list.len() == 0 {
        assert(result[0] == snapshot);
    } else {
        let rest = list.drop_last();
        names_of_the_last(list, id);
        names_of_the_last(result, id);
        if list.last().id == snapshot.id {
            assert(result.drop_last() =~= rest);
        } else if precedes(snapshot.id, list.last().id) {
            inserting_names_one_more(rest, snapshot, id);
            assert(result.drop_last() =~= insert_snapshot(rest, snapshot));
        } else {
            assert(result.drop_last() =~= list);
        }
    }
}

proof fn sorting_keeps_names(list: Seq<SnapshotModel>, id: Seq<char>)
    ensures
        names(by_connector(list), id) <==> names(list, id),
    decreases list.len(),
{
    if list.len() > 0 {
        sorting_keeps_names(list.drop_last(), id);
        inserting_names_one_more(by_connector(list.drop_last()), list.last(), id);
        names_of_the_last(list, id);
    }
}

proof fn named_are_reported(list: Seq<SnapshotModel>, id: Seq<char>)
    ensures
        names(named(list), id) <==> reports(list, id),
    decreases list.len(),
{
    if list.len() > 0 {
        let rest = list.drop_last();
        let all = named(list);
        let last = list.last().repaired();
        named_are_reported(rest, id);
        assert(list[list.len() - 1] == list.last());
        if reports(rest, id) {
            let k = choose|k: int| 0 <= k < rest.len() && trimmed((#[trigger] rest[k]).id) == id;
            assert(trimmed(list[k].id) == id);
        }
        if reports(list, id) && last.id != id {
            let k = choose|k: int| 0 <= k < list.len() && trimmed((#[trigger] list[k]).id) == id;
            assert(trimmed(rest[k].id) == id);
        }
        if last.id.len() > 0 {
            names_of_the_last(all, id);
            assert(all.drop_last() =~= named(rest));
        }
    }
}

proof fn ordered_without_last(found: Seq<SnapshotModel>)
    requires
        found.len() > 0,
        ordered_by_connector(found),
    ensures
        ordered_by_connector(found.drop_last()),
        !names(found.drop_last(), found.last().id),
{
    let rest = found.drop_last();
    assert forall|a: int, b: int| 0 <= a < b < rest.len() implies precedes(
        (#[trigger] rest[a]).id,
        (#[trigger] rest[b]).id,
    ) by {
        assert(precedes(found[a].id, found[b].id));
    }
    assert forall|a: int| 0 <= a < rest.len() implies (#[trigger] rest[a]).id != found.last().id by {
        assert(precedes(found[a].id, found[found.len() - 1].id));
        precedes_is_total(found[a].id, found.last().id);
    }
}

/// What the additions and changes tell of a connector that is found at `k`, or
/// nowhere where `k` is the length.
proof fn updates_tell_once(outputs: Seq<OutputModel>, found: Seq<SnapshotModel>, id: Seq<char>, k: int)
    requires
        ordered_by_connector(found),
        0 <= k <= found.len(),
        k < found.len() ==> found[k].id == id,
        k == found.len() ==> !names(found, id),
    ensures
        ({
            let told = updates(outputs, found);
            let known = output_of(outputs, id);
            &&& tellings(told, ChangeModel::Added(id)) == (if k < found.len() && known is None {
                1nat
            } else {
                0nat
            })
            &&& tellings(told, ChangeModel::Changed(id)) == (if k < found.len() && (known matches Some(
                output,
            ) && !output.snapshot.same_as(found[k])) {
                1nat
            } else {
                0nat
            })
            &&& tellings(told, ChangeModel::Removed(id)) == 0
        }),
    decreases found.len(),
{
    if found.len() > 0 {
        let rest = found.drop_last();
        let last = found.last();
        ordered_without_last(found);
        names_of_the_last(found, id);
        if k < rest.len() {
            assert(rest[k] == found[k]);
            assert(names(rest, id));
            updates_tell_once(outputs, rest, id, k);
        } else {
            updates_tell_once(outputs, rest, id, rest.len() as int);
        }
        let before = updates(outputs, rest);
        telling_one_more(before, ChangeModel::Added(last.id), ChangeModel::Added(id));
        telling_one_more(before, ChangeModel::Added(last.id), ChangeModel::Changed(id));
        telling_one_more(before, ChangeModel::Added(last.id), ChangeModel::Removed(id));
        telling_one_more(before, ChangeModel::Changed(last.id), ChangeModel::Added(id));
        telling_one_more(before, ChangeModel::Changed(last.id), ChangeModel::Changed(id));
        telling_one_more(before, ChangeModel::Changed(last.id), ChangeModel::Removed(id));
    }
}

proof fn connected_are_named(outputs: Seq<OutputModel>, id: Seq<char>)
    ensures
        output_of(outputs, id) is Some <==> names(snapshots_of(outputs), id),
        output_of(outputs, id) matches Some(output) ==> output.snapshot.id == id,
    decreases outputs.len(),
{
    if outputs.len() > 0 {
        let all = snapshots_of(outputs);
        connected_are_named(outputs.drop_last(), id);
        names_of_the_last(all, id);
        assert(all.drop_last() =~= snapshots_of(outputs.drop_last()));
        assert(all.last() == outputs.last().snapshot);
    }
}

proof fn removals_tell_once(outputs: Seq<OutputModel>, found: Seq<SnapshotModel>, id: Seq<char>)
    requires
        ordered_by_connector(snapshots_of(outputs)),
    ensures
        ({
            let told = removals(outputs, found);
            &&& tellings(told, ChangeModel::Removed(id)) == (if output_of(outputs, id) is Some
                && !names(found, id) {
                1nat
            } else {
                0nat
            })
            &&& tellings(told, ChangeModel::Added(id)) == 0
            &&& tellings(told, ChangeModel::Changed(id)) == 0
        }),
    decreases outputs.len(),
{
    if outputs.len() > 0 {
        let rest = outputs.drop_last();
        let last = outputs.last().snapshot.id;
        let all = snapshots_of(outputs);
        ordered_without_last(all);
        assert(all.drop_last() =~= snapshots_of(rest));
        assert(all.last().id == last);
        connected_are_named(rest, id);
        removals_tell_once(rest, found, id);
        let before = removals(rest, found);
        telling_one_more(before, ChangeModel::Removed(last), ChangeModel::Removed(id));
        telling_one_more(before, ChangeModel::Removed(last), ChangeModel::Added(id));
        telling_one_more(before, ChangeModel::Removed(last), ChangeModel::Changed(id));
    }
}

/// Of every connector, after every discovery: it is connected exactly if it
/// was reported. It is told as added once if it is new, as changed once if it
/// was known and differs, as removed once if it vanished, and not at all
/// otherwise. An active session with outputs has one of them in focus, and any
/// other session has none. The same discovery again tells nothing.
pub proof fn a_discovery_settles_every_output(
    registry: RegistryModel,
    list: Seq<SnapshotModel>,
    strategy: LayoutStrategy,
    id: Seq<char>,
)
    requires
        registry.wf(),
    ensures
        ({
            let after = reconciled(registry, list, strategy);
            let told = reconciliation(registry, list, strategy);
            let was = output_of(registry.outputs, id);
            let is = output_of(after.outputs, id);
            &&& is is Some <==> reports(list, id)
            &&& tellings(told, ChangeModel::Added(id)) == (if was is None && is is Some {
                1nat
            } else {
                0nat
            })
            &&& tellings(told, ChangeModel::Changed(id)) == (if (was matches Some(old_output) && is
                matches Some(new_output) && !old_output.snapshot.same_as(new_output.snapshot)) {
                1nat
            } else {
                0nat
            })
            &&& tellings(told, ChangeModel::Removed(id)) == (if was is Some && is is None {
                1nat
            } else {
                0nat
            })
            &&& after.focused is Some <==> after.active() && after.outputs.len() > 0
            &&& after.focused matches Some(focus) ==> output_of(after.outputs, focus) is Some
            &&& reconciliation(after, list, strategy).len() == 0
        }),
{
    let found = incoming(list);
    let after = reconciled(registry, list, strategy);
    let told = reconciliation(registry, list, strategy);
    assert(snapshots_of(after.outputs) =~= found);
    named_are_reported(list, id);
    sorting_keeps_names(named(list), id);
    connected_are_named(after.outputs, id);
    by_connector_is_ordered(named(list));
    first_is_connected(after.outputs);
    repeated_discovery_changes_nothing(registry, list, strategy);
    removals_tell_once(registry.outputs, found, id);
    let brought = updates(registry.outputs, found);
    let lost = removals(registry.outputs, found);
    tellings_add_up(brought, lost, ChangeModel::Added(id));
    tellings_add_up(brought, lost, ChangeModel::Changed(id));
    tellings_add_up(brought, lost, ChangeModel::Removed(id));
    telling_one_more(
        brought + lost,
        ChangeModel::FocusChanged(after.focused),
        ChangeModel::Added(id),
    );
    telling_one_more(
        brought + lost,
        ChangeModel::FocusChanged(after.focused),
        ChangeModel::Changed(id),
    );
    telling_one_more(
        brought + lost,
        ChangeModel::FocusChanged(after.focused),
        ChangeModel::Removed(id),
    );
    if names(found, id) {
        let k = choose|k: int| 0 <= k < found.len() && (#[trigger] found[k]).id == id;
        found_at(after.outputs, k);
        assert(after.outputs[k].snapshot == found[k]);
        updates_tell_once(registry.outputs, found, id, k);
    } else {
        updates_tell_once(registry.outputs, found, id, found.len() as int);
    }
}

proof fn picked_outputs_are_these(outputs: Seq<OutputModel>, primary: bool)
    ensures
        forall|i: int|
            0 <= i < with_primary(outputs, primary).len() ==> (#[trigger] with_primary(
                outputs,
                primary,
            )[i]).snapshot.primary == primary,
        forall|output: OutputModel| #[trigger]
            with_primary(outputs, primary).contains(output) <==> outputs.contains(output)
                && output.snapshot.primary == primary,
        with_primary(outputs, true).len() + with_primary(outputs, false).len() == outputs.len(),
    decreases outputs.len(),
{
    if outputs.len() > 0 {
        let rest = outputs.drop_last();
        picked_outputs_are_these(rest, primary);
        let before = with_primary(rest, primary);
        let all = with_primary(outputs, primary);
        assert(outputs.last() == outputs[outputs.len() - 1]);
        assert forall|output: OutputModel| #[trigger] all.contains(output) <==> outputs.contains(
            output,
        ) && output.snapshot.primary == primary by {
            assert(before.contains(output) <==> rest.contains(output) && output.snapshot.primary
                == primary);
            if all.contains(output) {
                let k = choose|k: int| 0 <= k < all.len() && all[k] == output;
                if k < before.len() {
                    assert(before[k] == output);
                    let n = choose|n: int| 0 <= n < rest.len() && rest[n] == output;
                    assert(outputs[n] == output);
                }
            }
            if outputs.contains(output) && output.snapshot.primary == primary {
                let n = choose|n: int| 0 <= n < outputs.len() && outputs[n] == output;
                if n < rest.len() {
                    assert(rest[n] == output);
                    let k = choose|k: int| 0 <= k < before.len() && before[k] == output;
                    assert(all[k] == output);
                } else {
                    assert(all[all.len() - 1] == output);
                }
            }
        }
    }
}

/// The order of outputs holds every one of them, and the primary ones come
/// before all others.
pub proof fn primary_outputs_come_first(outputs: Seq<OutputModel>, i: int, j: int)
    requires
        0 <= i < j < in_order(outputs).len(),
    ensures
        in_order(outputs).len() == outputs.len(),
        in_order(outputs)[j].snapshot.primary ==> in_order(outputs)[i].snapshot.primary,
        forall|output: OutputModel| #[trigger]
            in_order(outputs).contains(output) <==> outputs.contains(output),
{
    picked_outputs_are_these(outputs, true);
    picked_outputs_are_these(outputs, false);
    let a = with_primary(outputs, true);
    let b = with_primary(outputs, false);
    let order = in_order(outputs);
    assert forall|output: OutputModel| #[trigger] order.contains(output) <==> outputs.contains(
        output,
    ) by {
        assert(a.contains(output) <==> outputs.contains(output) && output.snapshot.primary);
        assert(b.contains(output) <==> outputs.contains(output) && !output.snapshot.primary);
        if order.contains(output) {
            let k = choose|k: int| 0 <= k < order.len() && order[k] == output;
            if k < a.len() {
                assert(a[k] == output);
            } else {
                assert(b[k - a.len()] == output);
            }
        }
        if a.contains(output) {
            let k = choose|k: int| 0 <= k < a.len() && a[k] == output;
            assert(order[k] == output);
        }
        if b.contains(output) {
            let k = choose|k: int| 0 <= k < b.len() && b[k] == output;
            assert(order[a.len() + k] == output);
        }
    }
}

/// Each output is as large as its snapshot tells, wherever it is put. In a
/// vertical layout each stands below the one before it; where locations are kept
/// an output with one stands exactly there, and one without stands behind those
/// that were put there before it.
pub proof fn outputs_are_put_by_their_strategy(
    order: Seq<OutputModel>,
    strategy: LayoutStrategy,
    k: int,
)
    requires
        0 <= k < order.len(),
    ensures
        ({
            let placements = layout_of(order, strategy).placements;
            let own = placements[k].geometry;
            let snapshot = order[k].snapshot;
            &&& placements.len() == order.len()
            &&& placements[k].id == snapshot.id
            &&& own.width == snapshot.size().0 && own.height == snapshot.size().1
            &&& strategy == LayoutStrategy::Vertical ==> own.x == 0 && own.y == (if k == 0 {
                0
            } else {
                placements[k - 1].geometry.bottom_edge()
            })
            &&& strategy == LayoutStrategy::Horizontal ==> own.y == 0 && own.x == (if k == 0 {
                0
            } else {
                placements[k - 1].geometry.right_edge()
            })
            &&& strategy == LayoutStrategy::Preserve ==> (snapshot.position matches Some(position)
                ==> own.x == position.x && own.y == position.y)
            &&& strategy == LayoutStrategy::Preserve && snapshot.position is None ==> own.y == 0
                && own.x == layout_of(order.subrange(0, k), strategy).next_x
        }),
    decreases order.len(),
{
    let rest = order.drop_last();
    let before = layout_of(rest, strategy);
    scaled_lengths_fit(order.last().snapshot);
    places_fit(rest, strategy);
    if k < rest.len() {
        outputs_are_put_by_their_strategy(rest, strategy, k);
        assert(rest[k] == order[k]);
        assert(rest.subrange(0, k) =~= order.subrange(0, k));
        if k > 0 {
            outputs_are_put_by_their_strategy(rest, strategy, k - 1);
        }
    } else {
        assert(order[k] == order.last());
        assert(order.subrange(0, k) =~= rest);
        if k > 0 {
            outputs_are_put_by_their_strategy(rest, strategy, k - 1);
            next_places_are_edges(rest, strategy);
        }
    }
}

proof fn places_fit(order: Seq<OutputModel>, strategy: LayoutStrategy)
    ensures
        0 <= layout_of(order, strategy).next_x <= i32::MAX,
        0 <= layout_of(order, strategy).next_y <= i32::MAX,
        layout_of(order, strategy).placements.len() == order.len(),
    decreases order.len(),
{
    if order.len() > 0 {
        places_fit(order.drop_last(), strategy);
        scaled_lengths_fit(order.last().snapshot);
    }
}

proof fn next_places_are_edges(order: Seq<OutputModel>, strategy: LayoutStrategy)
    requires
        order.len() > 0,
    ensures
        strategy == LayoutStrategy::Horizontal ==> layout_of(order, strategy).next_x == layout_of(
            order,
            strategy,
        ).placements[order.len() - 1].geometry.right_edge(),
        strategy == LayoutStrategy::Vertical ==> layout_of(order, strategy).next_y == layout_of(
            order,
            strategy,
        ).placements[order.len() - 1].geometry.bottom_edge(),
{
    places_fit(order.drop_last(), strategy);
    scaled_lengths_fit(order.last().snapshot);
}

/// The focus moves to the nearest output ahead: of all others whose middle lies
/// in the direction, none is nearer along it, nor as near along it and nearer
/// across. Where none lies ahead the focus stays.
pub proof fn directional_focus_takes_the_nearest(
    registry: RegistryModel,
    direction: OutputDirection,
    i: int,
)
    requires
        registry.wf(),
        registry.focused is Some,
        0 <= i < registry.outputs.len(),
        registry.outputs[i].snapshot.id != registry.focused->Some_0,
        offset_in(
            output_of(registry.outputs, registry.focused->Some_0)->Some_0.geometry,
            registry.outputs[i].geometry,
            direction,
        ) is Some,
    ensures
        focus_target(registry, direction) is Some,
        focus_target(registry, direction) != registry.focused,
        ({
            let from = output_of(registry.outputs, registry.focused->Some_0)->Some_0.geometry;
            let own = offset_in(from, registry.outputs[i].geometry, direction)->Some_0;
            exists|k: int|
                {
                    &&& 0 <= k < registry.outputs.len()
                    &&& Some((#[trigger] registry.outputs[k]).snapshot.id) == focus_target(
                        registry,
                        direction,
                    )
                    &&& offset_in(from, registry.outputs[k].geometry, direction) matches Some(least)
                        && (least.0 < own.0 || (least.0 == own.0 && least.1 <= own.1))
                }
        }),
{
    let id = registry.focused->Some_0;
    let from = output_of(registry.outputs, id)->Some_0.geometry;
    nearest_is_least(registry.outputs, id, from, direction);
    let own = offset_in(from, registry.outputs[i].geometry, direction)->Some_0;
    let (target, least) = nearest(registry.outputs, id, from, direction)->Some_0;
    let k = choose|k: int|
        0 <= k < registry.outputs.len() && (#[trigger] registry.outputs[k]).snapshot.id == target
            && offset_in(from, registry.outputs[k].geometry, direction) == Some(least);
    assert(Some(registry.outputs[k].snapshot.id) == focus_target(registry, direction));
    assert(!nearer(own, least));
}

proof fn nearest_is_least(
    outputs: Seq<OutputModel>,
    id: Seq<char>,
    from: OutputGeometry,
    direction: OutputDirection,
)
    ensures
        match nearest(outputs, id, from, direction) {
            Some((target, least)) => {
                &&& target != id
                &&& exists|k: int|
                    0 <= k < outputs.len() && (#[trigger] outputs[k]).snapshot.id == target
                        && offset_in(from, outputs[k].geometry, direction) == Some(least)
                &&& forall|k: int|
                    0 <= k < outputs.len() && (#[trigger] outputs[k]).snapshot.id != id ==> match
                    offset_in(from, outputs[k].geometry, direction) {
                        Some(offset) => !nearer(offset, least),
                        None => true,
                    }
            },
            None => forall|k: int|
                0 <= k < outputs.len() && (#[trigger] outputs[k]).snapshot.id != id ==> offset_in(
                    from,
                    outputs[k].geometry,
                    direction,
                ) is None,
        },
    decreases outputs.len(),
{
    if outputs.len() > 0 {
        let rest = outputs.drop_last();
        nearest_is_least(rest, id, from, direction);
        let last = outputs.len() - 1;
        assert(outputs[last] == outputs.last());
        assert forall|k: int| 0 <= k < rest.len() implies #[trigger] outputs[k] == rest[k] by {}
        match nearest(rest, id, from, direction) {
            Some((target, least)) => {
                let k = choose|k: int|
                    0 <= k < rest.len() && (#[trigger] rest[k]).snapshot.id == target && offset_in(
                        from,
                        rest[k].geometry,
                        direction,
                    ) == Some(least);
                assert(outputs[k] == rest[k]);
                assert forall|n: int|
                    0 <= n < rest.len() && (#[trigger] outputs[n]).snapshot.id != id implies match
                offset_in(from, outputs[n].geometry, direction) {
                    Some(offset) => !nearer(offset, least),
                    None => true,
                } by {
                    assert(rest[n].snapshot.id != id);
                }
            },
            None => {
                assert forall|n: int|
                    0 <= n < rest.len() && (#[trigger] outputs[n]).snapshot.id
                        != id implies offset_in(from, outputs[n].geometry, direction) is None by {
                    assert(rest[n].snapshot.id != id);
                }
            },
        }
    }
}

/// What lies ahead: an output whose middle is farther left, right, up or down,
/// as the direction says; and how far, along the direction and across it.
pub proof fn directions_are_those_of_the_screen(
    from: OutputGeometry,
    to: OutputGeometry,
)
    requires
        from.width > 0 && from.height > 0 && to.width > 0 && to.height > 0,
    ensures
        ({
            let dx = (to.x + to.width as int / 2) - (from.x + from.width as int / 2);
            let dy = (to.y + to.height as int / 2) - (from.y + from.height as int / 2);
            let across = if dx < 0 {
                -dx
            } else {
                dx
            };
            let down = if dy < 0 {
                -dy
            } else {
                dy
            };
            let left = offset_in(from, to, OutputDirection::Left);
            let right = offset_in(from, to, OutputDirection::Right);
            let up = offset_in(from, to, OutputDirection::Up);
            let below = offset_in(from, to, OutputDirection::Down);
            &&& left is Some <==> dx < 0
            &&& right is Some <==> dx > 0
            &&& up is Some <==> dy < 0
            &&& below is Some <==> dy > 0
            &&& left matches Some(offset) ==> offset.0 == across && offset.1 == down
            &&& right matches Some(offset) ==> offset.0 == across && offset.1 == down
            &&& up matches Some(offset) ==> offset.0 == down && offset.1 == across
            &&& below matches Some(offset) ==> offset.0 == down && offset.1 == across
        }),
{
}

/// The next output is the one behind the focused one in their order, and the
/// first behind the last; in reverse it is the one before.
pub proof fn the_next_output_is_the_neighbour(registry: RegistryModel, place: int)
    requires
        registry.focused is Some,
        position_of(in_order(registry.outputs), registry.focused->Some_0) == Some(place),
        0 <= place < in_order(registry.outputs).len(),
    ensures
        ({
            let count = in_order(registry.outputs).len();
            &&& place + 1 < count ==> next_place(registry, false) == place + 1
            &&& place + 1 == count ==> next_place(registry, false) == 0
            &&& place > 0 ==> next_place(registry, true) == place - 1
            &&& place == 0 ==> next_place(registry, true) == count - 1
        }),
{
    let count = in_order(registry.outputs).len() as int;
    if place + 1 < count {
        vstd::arithmetic::div_mod::lemma_small_mod((place + 1) as nat, count as nat);
    } else {
        vstd::arithmetic::div_mod::lemma_mod_self_0(count);
    }
    if place > 0 {
        vstd::arithmetic::div_mod::lemma_mod_add_multiples_vanish(place - 1, count);
        vstd::arithmetic::div_mod::lemma_small_mod((place - 1) as nat, count as nat);
    } else {
        vstd::arithmetic::div_mod::lemma_small_mod((count - 1) as nat, count as nat);
    }
}

/// A session that is paused or lost has no focus and remembers the one it had;
/// an active one has the remembered focus where that output is still there, and
/// else the first output: a primary one where there is one. Outputs stay.
pub proof fn sessions_keep_their_focus(registry: RegistryModel, vt: Option<i32>)
    ensures
        ({
            let paused = after_session(registry, SessionEvent::Pause);
            let lost = after_session(registry, SessionEvent::Lost);
            let active = after_session(registry, SessionEvent::Activate { vt });
            &&& paused.session == SessionState::Paused && lost.session == SessionState::Lost
            &&& active.session == SessionState::Active { vt }
            &&& paused.focused is None && lost.focused is None
            &&& paused.saved_focus == registry.focused && lost.saved_focus == registry.focused
            &&& active.saved_focus is None
            &&& paused.outputs == registry.outputs && lost.outputs == registry.outputs
                && active.outputs == registry.outputs
            &&& registry.saved_focus matches Some(id) ==> (output_of(registry.outputs, id) is Some
                ==> active.focused == Some(id))
            &&& registry.saved_focus is None && registry.outputs.len() > 0 ==> (
            active.focused matches Some(id) && id == in_order(registry.outputs)[0].snapshot.id)
            &&& registry.outputs.len() == 0 && registry.saved_focus is None
                ==> active.focused is None
        }),
{
}

/// After a discovery the focus stays on its output where that is still there;
/// else an active session takes the first. A session that is not active has no
/// focus, and its state stays.
pub proof fn discoveries_keep_the_focus(
    registry: RegistryModel,
    list: Seq<SnapshotModel>,
    strategy: LayoutStrategy,
)
    ensures
        ({
            let after = reconciled(registry, list, strategy);
            &&& after.session == registry.session && after.saved_focus == registry.saved_focus
            &&& !(registry.session is Active) ==> after.focused is None
            &&& registry.session is Active ==> {
                &&& registry.focused matches Some(id) ==> (output_of(after.outputs, id) is Some
                    ==> after.focused == Some(id))
                &&& (registry.focused is None || output_of(
                    after.outputs,
                    registry.focused->Some_0,
                ) is None) && after.outputs.len() > 0 ==> after.focused == Some(
                    in_order(after.outputs)[0].snapshot.id,
                )
            }
        }),
{
}

proof fn placements_are_found(placements: Seq<PlacementModel>, id: Seq<char>)
    ensures
        placed(placements, id) matches Some(geometry) ==> exists|k: int|
            0 <= k < placements.len() && (#[trigger] placements[k]).id == id
                && placements[k].geometry == geometry,
    decreases placements.len(),
{
    if placements.len() > 0 {
        if placements.last().id == id {
            assert(placements[placements.len() - 1].id == id);
        } else {
            let rest = placements.drop_last();
            placements_are_found(rest, id);
            match placed(rest, id) {
                Some(geometry) => {
                    let k = choose|k: int|
                        0 <= k < rest.len() && (#[trigger] rest[k]).id == id && rest[k].geometry
                            == geometry;
                    assert(placements[k] == rest[k]);
                },
                None => {},
            }
        }
    }
}

/// A layout leaves every output at its place in the list with its own snapshot,
/// and gives it a rectangle of its own size; one with a saved location stands
/// there where locations are kept.
pub proof fn outputs_keep_their_snapshots(registry: RegistryModel, strategy: LayoutStrategy, i: int)
    requires
        registry.wf(),
        0 <= i < registry.outputs.len(),
    ensures
        ({
            let after = arranged(registry.outputs, strategy);
            let snapshot = registry.outputs[i].snapshot;
            &&& after.len() == registry.outputs.len()
            &&& after[i].snapshot == snapshot
            &&& after[i].geometry.width == snapshot.size().0 && after[i].geometry.height
                == snapshot.size().1
            &&& strategy == LayoutStrategy::Preserve ==> (snapshot.position matches Some(position)
                ==> after[i].geometry.x == position.x && after[i].geometry.y == position.y)
            &&& strategy == LayoutStrategy::Horizontal ==> after[i].geometry.y == 0
            &&& strategy == LayoutStrategy::Vertical ==> after[i].geometry.x == 0
        }),
{
    let outputs = registry.outputs;
    let id = outputs[i].snapshot.id;
    let order = in_order(outputs);
    let placements = layout_of(order, strategy).placements;
    every_output_is_placed(outputs, strategy, i);
    placements_are_found(placements, id);
    let geometry = placed(placements, id)->Some_0;
    let k = choose|k: int|
        0 <= k < placements.len() && (#[trigger] placements[k]).id == id && placements[k].geometry
            == geometry;
    places_fit(order, strategy);
    outputs_are_put_by_their_strategy(order, strategy, k);
    picked_outputs_are_these(outputs, true);
    picked_outputs_are_these(outputs, false);
    let a = with_primary(outputs, true);
    let b = with_primary(outputs, false);
    if k < a.len() {
        assert(order[k] == a[k]);
        assert(a.contains(a[k]));
    } else {
        assert(order[k] == b[k - a.len()]);
        assert(b.contains(b[k - a.len()]));
    }
    assert(outputs.contains(order[k]));
    let n = choose|n: int| 0 <= n < outputs.len() && outputs[n] == order[k];
    let list = snapshots_of(outputs);
    assert(list[n].id == list[i].id);
    if n < i {
        precedes_is_total(list[n].id, list[i].id);
        assert(precedes(list[n].id, list[i].id));
    } else if i < n {
        precedes_is_total(list[i].id, list[n].id);
        assert(precedes(list[i].id, list[n].id));
    }
    assert(order[k].snapshot == outputs[i].snapshot);
}

/// A focused output is in focus, and nothing else changes; it is told once. A
/// signal of the seat pauses or activates the session, and what a pause and an
/// activation do to the focus undo each other.
pub proof fn focusing_is_told_once(registry: RegistryModel, id: Seq<char>)
    ensures
        registry.with_focus(id).focused == Some(id),
        registry.with_focus(id).outputs == registry.outputs && registry.with_focus(id).session
            == registry.session && registry.with_focus(id).saved_focus == registry.saved_focus,
        registry.focused != Some(id) ==> registry.focus_told(id) == Some(
            ChangeModel::FocusChanged(Some(id)),
        ),
        registry.with_focus(id).focus_told(id) is None,
        after_session(registry, event_of_signal(SessionSignal::PauseSession)).session
            == SessionState::Paused,
        after_session(registry, event_of_signal(SessionSignal::ActivateSession)).session
            == (SessionState::Active { vt: None }),
        output_of(registry.outputs, id) is Some ==> after_session(
            after_session(
                registry.with_focus(id),
                event_of_signal(SessionSignal::PauseSession),
            ),
            event_of_signal(SessionSignal::ActivateSession),
        ).focused == Some(id),
{
}

} // verus!
