//! Interactive moves and resizes, and the presses that allow them.

use crate::geometry::{Point, Rect};
use crate::shell_press::ResizeEdge;
use vstd::prelude::*;

verus! {

/// The last press that the compositor issued. A client may only begin a move
/// or a resize with its serial.
#[derive(Debug, Clone, Copy, PartialEq, Eq, Structural)]
pub struct PressedSerials {
    pub last_press: Option<u32>,
}

impl PressedSerials {
    pub fn new() -> (serials: Self)
        ensures
            serials.last_press is None,
    {
        PressedSerials { last_press: None }
    }

    pub fn record_press(&mut self, serial: u32)
        ensures
            final(self).last_press == Some(serial),
    {
        self.last_press = Some(serial);
    }

    /// Whether a serial is that of the last press.
    pub fn validates(&self, serial: u32) -> (yes: bool)
        ensures
            yes == (self.last_press == Some(serial)),
    {
        match self.last_press {
            Some(press) => press == serial,
            None => false,
        }
    }
}

/// What a grab asks of the window manager.
#[derive(Debug, Clone, Copy, PartialEq, Eq, Structural)]
pub enum DragRequest {
    Move { id: u64, position: Point },
    Resize { id: u64, edge: ResizeEdge, delta: Point },
    /// The windows are configured anew.
    Reconfigure,
}

/// What a grab acts on.
pub trait DragTarget: Sized {
    /// The frame of a window that can be dragged.
    spec fn frame_of(&self, id: u64) -> Option<Rect>;

    /// What was asked for so far.
    spec fn asked(&self) -> Seq<DragRequest>;

    fn drag_frame(&self, id: u64) -> (frame: Option<Rect>)
        ensures
            frame == self.frame_of(id),
    ;

    fn drag_move_to(&mut self, id: u64, position: Point)
        ensures
            final(self).asked() == old(self).asked().push(DragRequest::Move { id, position }),
    ;

    fn drag_resize_by(&mut self, id: u64, edge: ResizeEdge, delta: Point)
        ensures
            final(self).asked() == old(self).asked().push(DragRequest::Resize { id, edge, delta }),
    ;

    fn drag_reconfigured(&mut self)
        ensures
            final(self).asked() == old(self).asked().push(DragRequest::Reconfigure),
    ;
}

/// A window that can be dragged.
#[derive(Debug, Clone, Copy, PartialEq, Eq, Structural)]
pub struct DragWindow {
    pub id: u64,
    pub frame: Rect,
}

/// A target that keeps what it is asked for, in order.
#[derive(Debug, Clone, PartialEq, Eq)]
pub struct DragQueue {
    pub windows: Vec<DragWindow>,
    pub requests: Vec<DragRequest>,
}

/// The frame of the first window with an id, from `from` on.
pub open spec fn first_frame(windows: Seq<DragWindow>, id: u64, from: int) -> Option<Rect>
    decreases windows.len() - from,
{
    if from < 0 || from >= windows.len() {
        None
    } else if windows[from].id == id {
        Some(windows[from].frame)
    } else {
        first_frame(windows, id, from + 1)
    }
}

impl DragQueue {
    pub fn new(windows: Vec<DragWindow>) -> (queue: Self)
        ensures
            queue.windows == windows,
            queue.requests@.len() == 0,
    {
        DragQueue { windows, requests: Vec::new() }
    }
}

impl DragTarget for DragQueue {
    open spec fn frame_of(&self, id: u64) -> Option<Rect> {
        first_frame(self.windows@, id, 0)
    }

    open spec fn asked(&self) -> Seq<DragRequest> {
        self.requests@
    }

    fn drag_frame(&self, id: u64) -> (frame: Option<Rect>) {
        let mut i: usize = 0;
        while i < self.windows.len()
            invariant
                i <= self.windows.len(),
                first_frame(self.windows@, id, 0) == first_frame(self.windows@, id, i as int),
            decreases self.windows.len() - i,
        {
            if self.windows[i].id == id {
                return Some(self.windows[i].frame);
            }
            i += 1;
        }
        None
    }

    fn drag_move_to(&mut self, id: u64, position: Point) {
        self.requests.push(DragRequest::Move { id, position });
    }

    fn drag_resize_by(&mut self, id: u64, edge: ResizeEdge, delta: Point) {
        self.requests.push(DragRequest::Resize { id, edge, delta });
    }

    fn drag_reconfigured(&mut self) {
        self.requests.push(DragRequest::Reconfigure);
    }
}

/// A live grab of one window. The pointer's distance from the window's corner,
/// or its place at the start, is a pair of binary64 bit patterns.
#[derive(Debug, Clone, Copy, PartialEq, Eq, Structural)]
pub enum WindowGrab {
    Move { id: u64, offset_x: u64, offset_y: u64 },
    Resize { id: u64, edge: ResizeEdge, start_x: u64, start_y: u64 },
}

/// What motion of a grab asks for. `at` is the pointer less the grab's offset
/// or start, in whole pixels.
pub open spec fn request_of(grab: WindowGrab, at: Point) -> DragRequest {
    match grab {
        WindowGrab::Move { id, offset_x, offset_y } => DragRequest::Move { id, position: at },
        WindowGrab::Resize { id, edge, start_x, start_y } => DragRequest::Resize {
            id,
            edge,
            delta: at,
        },
    }
}

impl WindowGrab {
    /// Moves or resizes the window, and has the windows configured anew.
    pub fn motion<D: DragTarget>(&self, target: &mut D, at: Point)
        ensures
            final(target).asked() == old(target).asked().push(request_of(*self, at)).push(
                DragRequest::Reconfigure,
            ),
    {
        match self {
            WindowGrab::Move { id, offset_x, offset_y } => target.drag_move_to(*id, at),
            WindowGrab::Resize { id, edge, start_x, start_y } => target.drag_resize_by(
                *id,
                *edge,
                at,
            ),
        }
        target.drag_reconfigured();
    }

    /// Whether a button ends the grab: a release does, and the windows are
    /// then configured once more.
    pub fn button<D: DragTarget>(&self, target: &mut D, pressed: bool) -> (ends: bool)
        ensures
            ends == !pressed,
            final(target).asked() == (if pressed {
                old(target).asked()
            } else {
                old(target).asked().push(DragRequest::Reconfigure)
            }),
    {
        if pressed {
            return false;
        }
        target.drag_reconfigured();
        true
    }
}

/// The frame that a move begins with; nothing moves without a window.
pub fn start_move<D: DragTarget>(target: &D, id: u64) -> (frame: Option<Rect>)
    ensures
        frame == target.frame_of(id),
{
    target.drag_frame(id)
}

/// The grab of a resize; nothing is resized without a window.
pub fn start_resize<D: DragTarget>(target: &D, id: u64, edge: ResizeEdge, start: (u64, u64)) -> (grab:
    Option<WindowGrab>)
    ensures
        grab == (if target.frame_of(id) is Some {
            Some(WindowGrab::Resize { id, edge, start_x: start.0, start_y: start.1 })
        } else {
            None
        }),
{
    match target.drag_frame(id) {
        Some(_) => Some(
            WindowGrab::Resize { id, edge, start_x: start.0, start_y: start.1 },
        ),
        None => None,
    }
}

// ---- laws ------------------------------------------------------------------------------

/// A drag asks for what it began as, and for its own window: a move to the
/// position, or a resize by its own edge.
pub proof fn drags_ask_for_their_own_window(grab: WindowGrab, at: Point)
    ensures
        grab matches WindowGrab::Move { id, offset_x, offset_y } ==> request_of(grab, at)
            == (DragRequest::Move { id, position: at }),
        grab matches WindowGrab::Resize { id, edge, start_x, start_y } ==> request_of(grab, at)
            == (DragRequest::Resize { id, edge, delta: at }),
{
}

/// The frame of a window is that of the first with its number.
pub proof fn frames_are_found_by_number(windows: Seq<DragWindow>, id: u64, from: int)
    requires
        0 <= from,
    ensures
        match first_frame(windows, id, from) {
            Some(frame) => exists|k: int|
                {
                    &&& from <= k < windows.len()
                    &&& (#[trigger] windows[k]).id == id
                    &&& windows[k].frame == frame
                    &&& forall|j: int| from <= j < k ==> (#[trigger] windows[j]).id != id
                },
            None => forall|j: int| from <= j < windows.len() ==> (#[trigger] windows[j]).id != id,
        },
    decreases windows.len() - from,
{
    if from < windows.len() {
        if windows[from].id == id {
            assert(windows[from].frame == windows[from].frame);
        } else {
            frames_are_found_by_number(windows, id, from + 1);
        }
    }
}

} // verus!
