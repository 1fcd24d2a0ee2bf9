//! The host window of a nested session: what its events ask for.

use crate::binary64::{finite, is_finite};
use crate::geometry::{rect, Point, Rect, Size};
use crate::window_stack::{valid_host_size, MIN_HOST_SIZE};
use vstd::prelude::*;

verus! {

/// How long the terminal's output is left alone while it is shown.
pub const OPEN_POLL_MS: u64 = 50;

/// How long it is left alone while nobody sees it.
pub const CLOSED_POLL_MS: u64 = 1000;

/// An event of the host window.
#[derive(Debug, Clone, Copy, PartialEq, Eq, Structural)]
pub enum HostEvent {
    Resized(Size),
    /// Input that was handled, and whether the frame changed by it.
    Input { changed: bool },
    Redraw,
    CloseRequested,
    Focus(bool),
}

/// One thing that is done for an event.
#[derive(Debug, Clone, Copy, PartialEq, Eq, Structural)]
pub enum HostStep {
    /// The clients are looked at again.
    Reconcile,
    /// The idle session is looked at again.
    TickSession,
    ResizeOutput(Size),
    /// The next frame is asked for, from the shell and from the host.
    RequestRedraw,
    /// The request that led here is done with.
    ConsumeRedraw,
    RenderFrame,
    /// The host is asked for another frame, if the shell still needs one.
    ContinueRedraw,
    FocusChanged(bool),
    Stop,
}

pub open spec fn usable_size(size: Size) -> bool {
    size.width >= MIN_HOST_SIZE && size.height >= MIN_HOST_SIZE
}

/// What an event asks for, after the look at the clients and the session that
/// every event begins with. A size without pixels, as of a host window that is
/// being minimized, is left aside.
pub open spec fn answer_to(event: HostEvent) -> Seq<HostStep> {
    match event {
        HostEvent::Resized(size) => if usable_size(size) {
            seq![HostStep::ResizeOutput(size), HostStep::Reconcile, HostStep::RequestRedraw]
        } else {
            Seq::empty()
        },
        HostEvent::Input { changed } => if changed {
            seq![HostStep::RequestRedraw]
        } else {
            Seq::empty()
        },
        HostEvent::Redraw => seq![
            HostStep::ConsumeRedraw,
            HostStep::RenderFrame,
            HostStep::ContinueRedraw,
        ],
        HostEvent::CloseRequested => seq![HostStep::Stop],
        HostEvent::Focus(focused) => seq![HostStep::FocusChanged(focused), HostStep::RequestRedraw],
    }
}

pub open spec fn steps_for(event: HostEvent) -> Seq<HostStep> {
    seq![HostStep::Reconcile, HostStep::TickSession] + answer_to(event)
}

/// The steps that an event of the host window asks for, in their order.
pub fn host_event(event: HostEvent) -> (steps: Vec<HostStep>)
    ensures
        steps@ == steps_for(event),
{
    let mut steps: Vec<HostStep> = Vec::new();
    steps.push(HostStep::Reconcile);
    steps.push(HostStep::TickSession);
    match event {
        HostEvent::Resized(size) => {
            if valid_host_size(size.width, size.height) {
                steps.push(HostStep::ResizeOutput(size));
                steps.push(HostStep::Reconcile);
                steps.push(HostStep::RequestRedraw);
            }
        },
        HostEvent::Input { changed } => {
            if changed {
                steps.push(HostStep::RequestRedraw);
            }
        },
        HostEvent::Redraw => {
            steps.push(HostStep::ConsumeRedraw);
            steps.push(HostStep::RenderFrame);
            steps.push(HostStep::ContinueRedraw);
        },
        HostEvent::CloseRequested => {
            steps.push(HostStep::Stop);
        },
        HostEvent::Focus(focused) => {
            steps.push(HostStep::FocusChanged(focused));
            steps.push(HostStep::RequestRedraw);
        },
    }
    assert(steps@ =~= steps_for(event));
    steps
}

/// What a look at the terminal's output leads to.
#[derive(Debug, Clone, Copy, PartialEq, Eq, Structural)]
pub struct PollOutcome {
    pub redraw: bool,
    /// When to look again.
    pub next_ms: u64,
}

/// A closed terminal is looked at seldom, so that an idle desktop does not
/// poll.
pub fn terminal_polled(output: bool, game_mode_changed: bool, open: bool) -> (outcome: PollOutcome)
    ensures
        outcome.redraw == (output || game_mode_changed),
        outcome.next_ms == if open {
            OPEN_POLL_MS
        } else {
            CLOSED_POLL_MS
        },
{
    PollOutcome {
        redraw: output || game_mode_changed,
        next_ms: if open {
            OPEN_POLL_MS
        } else {
            CLOSED_POLL_MS
        },
    }
}

pub open spec fn pointer_area_of(output: Option<Rect>, work_area: Size) -> Rect {
    match output {
        Some(geometry) if usable_size(geometry.size) => geometry,
        _ => rect(
            0,
            0,
            if work_area.width >= MIN_HOST_SIZE {
                work_area.width as int
            } else {
                MIN_HOST_SIZE as int
            },
            if work_area.height >= MIN_HOST_SIZE {
                work_area.height as int
            } else {
                MIN_HOST_SIZE as int
            },
        ),
    }
}

/// The area that absolute pointer positions are spread over: the output, or
/// the work area where the output has no pixels.
pub fn pointer_area(output: Option<Rect>, work_area: Size) -> (area: Rect)
    ensures
        area == pointer_area_of(output, work_area),
{
    match output {
        Some(geometry) => {
            if valid_host_size(geometry.size.width, geometry.size.height) {
                return geometry;
            }
        },
        None => {},
    }
    let width: i32 = if work_area.width >= MIN_HOST_SIZE {
        work_area.width
    } else {
        MIN_HOST_SIZE
    };
    let height: i32 = if work_area.height >= MIN_HOST_SIZE {
        work_area.height
    } else {
        MIN_HOST_SIZE
    };
    Rect { origin: Point { x: 0, y: 0 }, size: Size { width, height } }
}

/// Whether a position of a device, as binary64, can be used.
pub fn accepts_position(x: u64, y: u64) -> (yes: bool)
    ensures
        yes == (finite(x) && finite(y)),
{
    is_finite(x) && is_finite(y)
}

// ---- laws ------------------------------------------------------------------------------

/// The output always has pixels: no event of the host gives it another size.
pub proof fn the_output_keeps_pixels(event: HostEvent, i: int)
    requires
        0 <= i < steps_for(event).len(),
    ensures
        steps_for(event)[i] matches HostStep::ResizeOutput(size) ==> usable_size(size)
            && event == HostEvent::Resized(size),
{
}

/// Every area that positions are spread over has pixels.
pub proof fn pointer_areas_have_pixels(output: Option<Rect>, work_area: Size)
    ensures
        usable_size(pointer_area_of(output, work_area).size),
{
}

/// What the host's events lead to, behind a look at the clients and the idle
/// session: a usable size resizes the output and asks for a frame, changed input
/// asks for one, a redraw renders and goes on, a change of focus is told and asks
/// for a frame, and a request to close stops.
pub proof fn host_events_lead_to_these_steps(event: HostEvent)
    ensures
        steps_for(event).len() >= 2,
        steps_for(event)[0] == HostStep::Reconcile,
        steps_for(event)[1] == HostStep::TickSession,
        steps_for(event).contains(HostStep::RenderFrame) <==> event == HostEvent::Redraw,
        steps_for(event).contains(HostStep::Stop) <==> event == HostEvent::CloseRequested,
        steps_for(event).contains(HostStep::RequestRedraw) <==> {
            ||| event == (HostEvent::Input { changed: true })
            ||| event is Focus
            ||| event matches HostEvent::Resized(size) && size.width >= 1 && size.height >= 1
        },
        event matches HostEvent::Resized(size) ==> (size.width >= 1 && size.height >= 1
            ==> steps_for(event).contains(HostStep::ResizeOutput(size))),
        event matches HostEvent::Focus(focused) ==> steps_for(event).contains(
            HostStep::FocusChanged(focused),
        ),
        event == HostEvent::Redraw ==> steps_for(event)[2] == HostStep::ConsumeRedraw && steps_for(
            event,
        )[3] == HostStep::RenderFrame && steps_for(event)[4] == HostStep::ContinueRedraw,
{
    let steps = steps_for(event);
    match event {
        HostEvent::Resized(size) => {
            if usable_size(size) {
                assert(steps[2] == HostStep::ResizeOutput(size));
                assert(steps[4] == HostStep::RequestRedraw);
            }
        },
        HostEvent::Input { changed } => {
            if changed {
                assert(steps[2] == HostStep::RequestRedraw);
            }
        },
        HostEvent::Redraw => {
            assert(steps[3] == HostStep::RenderFrame);
        },
        HostEvent::CloseRequested => {
            assert(steps[2] == HostStep::Stop);
        },
        HostEvent::Focus(focused) => {
            assert(steps[2] == HostStep::FocusChanged(focused));
            assert(steps[3] == HostStep::RequestRedraw);
        },
    }
}

/// Positions are spread over the output where it has pixels, and else over the
/// work area from the origin on, of which each side counts one pixel at least.
pub proof fn positions_are_spread_over_the_output(output: Option<Rect>, work_area: Size)
    ensures
        output matches Some(geometry) ==> (geometry.size.width >= 1 && geometry.size.height >= 1
            ==> pointer_area_of(output, work_area) == geometry),
        output is None && work_area.width >= 1 && work_area.height >= 1 ==> {
            let area = pointer_area_of(output, work_area);
            area.origin.x == 0 && area.origin.y == 0 && area.size == work_area
        },
{
}

} // verus!
