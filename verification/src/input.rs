//! The native input boundary: one small normalized event stream.
//!
//! Timestamps never go back, malformed numbers are discarded, key-repeat
//! catch-up is bounded, and every seat loss or device removal cancels a grab
//! before focus is allowed to become stale. Deltas, coordinates and scales are
//! the bit patterns of binary64 numbers.

use crate::binary64::{clamp, finite, is_finite, ordinal, within, ONE};
use crate::key_repeat::{
    default_repeat, key_views, KeyEvent, KeyModel, KeyRepeatConfig, KeyRepeater, KeySample,
    PhysicalKeyState, RepeaterModel,
};
use crate::num::larger;
use crate::shortcuts::{class_of, classify_device_capabilities, DeviceKind};
use crate::text::{copy_option, option_view, same};
use vstd::prelude::*;
use vstd::string::*;

verus! {

/// Largest relative motion accepted from one event, 8192.0.
pub const MAX_RELATIVE_DELTA: u64 = 0x40c0_0000_0000_0000;

/// The negative of the largest relative motion, -8192.0.
pub const MIN_RELATIVE_DELTA: u64 = 0xc0c0_0000_0000_0000;

/// Smallest pinch scale, 0.01.
pub const MIN_PINCH_SCALE: u64 = 0x3f84_7ae1_47ae_147b;

/// Largest pinch scale, 100.0.
pub const MAX_PINCH_SCALE: u64 = 0x4059_0000_0000_0000;

pub open spec fn sane_delta(bits: u64) -> u64 {
    if finite(bits) {
        within(bits, MIN_RELATIVE_DELTA, MAX_RELATIVE_DELTA)
    } else {
        0
    }
}

/// A delta within the accepted range; an infinite one or NaN is zero.
pub fn sanitize_delta(bits: u64) -> (sane: u64)
    ensures
        sane == sane_delta(bits),
{
    if is_finite(bits) {
        clamp(bits, MIN_RELATIVE_DELTA, MAX_RELATIVE_DELTA)
    } else {
        0
    }
}

pub open spec fn sane_option(bits: Option<u64>) -> Option<u64> {
    match bits {
        Some(value) => Some(sane_delta(value)),
        None => None,
    }
}

fn sanitize_option(bits: Option<u64>) -> (sane: Option<u64>)
    ensures
        sane == sane_option(bits),
{
    match bits {
        Some(value) => Some(sanitize_delta(value)),
        None => None,
    }
}

pub open spec fn sane_amount(bits: Option<u64>) -> u64 {
    match bits {
        Some(value) => sane_delta(value),
        None => 0,
    }
}

pub open spec fn sane_pinch(bits: u64) -> u64 {
    if finite(bits) {
        within(bits, MIN_PINCH_SCALE, MAX_PINCH_SCALE)
    } else {
        ONE
    }
}

fn sanitize_pinch(bits: u64) -> (sane: u64)
    ensures
        sane == sane_pinch(bits),
{
    if is_finite(bits) {
        clamp(bits, MIN_PINCH_SCALE, MAX_PINCH_SCALE)
    } else {
        ONE
    }
}

/// The source of a pointer axis event.
#[derive(Debug, Clone, Copy, PartialEq, Eq, Hash, Structural)]
pub enum AxisSource {
    /// Physical wheel ticks.
    Wheel,
    /// Finger scrolling on a touchpad.
    Finger,
    /// A continuous axis such as a high-resolution touchpad stream.
    Continuous,
    /// A backend did not provide a source classification.
    Unknown,
}

/// A gesture lifecycle marker.
#[derive(Debug, Clone, Copy, PartialEq, Eq, Hash, Structural)]
pub enum GesturePhase {
    /// Gesture recognition started.
    Begin,
    /// Gesture changed.
    Update,
    /// Gesture ended.
    End {
        /// Whether the gesture was marked as cancelled.
        cancelled: bool,
    },
}

/// A touch lifecycle marker.
#[derive(Debug, Clone, Copy, PartialEq, Eq, Hash, Structural)]
pub enum TouchPhase {
    /// A finger appeared.
    Down,
    /// A finger moved.
    Motion,
    /// A finger was lifted.
    Up,
    /// The complete touch sequence was cancelled.
    Cancel,
    /// The backend committed the current touch frame.
    Frame,
}

/// Why a focus or pointer grab was invalidated.
#[derive(Debug, Clone, Copy, PartialEq, Eq, Hash, Structural)]
pub enum GrabCancelReason {
    /// The session was paused during a VT switch or suspend.
    SeatPaused,
    /// The input device disappeared.
    DeviceRemoved,
    /// The host window lost activation.
    HostDeactivated,
    /// The focused surface or output was removed.
    FocusLost,
    /// The output owning the grab disappeared.
    OutputRemoved,
    /// The compositor explicitly replaced the grab.
    Replaced,
    /// A client or shell action requested cancellation.
    Explicit,
}

/// A single stream consumed by the shell and the compositor.
#[derive(Debug, Clone, PartialEq)]
pub enum NormalizedInputEvent {
    /// A device became available.
    DeviceAdded { device: String, name: String, kind: DeviceKind },
    /// A device was removed; `kind` is its last known class.
    DeviceRemoved { device: String, kind: DeviceKind },
    /// A keyboard press, release or normalized repeat.
    Keyboard(KeyEvent),
    /// Relative motion in logical pixels, accelerated and not.
    PointerMotion {
        time_us: u64,
        dx: u64,
        dy: u64,
        unaccelerated_dx: u64,
        unaccelerated_dy: u64,
        device: String,
    },
    /// Absolute pointer motion in backend space.
    PointerMotionAbsolute { time_us: u64, x: u64, y: u64, device: String },
    /// A pointer button transition.
    PointerButton { time_us: u64, button: u32, pressed: bool, device: String },
    /// A pointer or touchpad axis event, with high-resolution wheel values
    /// where there are any.
    PointerAxis {
        time_us: u64,
        horizontal: u64,
        vertical: u64,
        horizontal_v120: Option<u64>,
        vertical_v120: Option<u64>,
        source: AxisSource,
        device: String,
    },
    /// A swipe with several fingers.
    GestureSwipe {
        time_us: u64,
        phase: GesturePhase,
        fingers: u32,
        dx: u64,
        dy: u64,
        device: String,
    },
    /// A pinch or rotate gesture; the scale is relative to its start.
    GesturePinch {
        time_us: u64,
        phase: GesturePhase,
        fingers: u32,
        dx: u64,
        dy: u64,
        scale: u64,
        rotation: u64,
        device: String,
    },
    /// A hold gesture.
    GestureHold { time_us: u64, phase: GesturePhase, fingers: u32, device: String },
    /// A touch point transition; the slot is -1 where there is none.
    Touch {
        time_us: u64,
        slot: i32,
        phase: TouchPhase,
        x: Option<u64>,
        y: Option<u64>,
        device: String,
    },
    /// Focus changed at the compositor seat boundary.
    FocusChanged { output: Option<String>, surface: Option<String>, active: bool },
    /// A previously active grab must be released.
    GrabCancelled { token: u64, reason: GrabCancelReason },
}

pub enum EventModel {
    DeviceAdded { device: Seq<char>, name: Seq<char>, kind: DeviceKind },
    DeviceRemoved { device: Seq<char>, kind: DeviceKind },
    Keyboard(KeyModel),
    PointerMotion {
        time_us: u64,
        dx: u64,
        dy: u64,
        unaccelerated_dx: u64,
        unaccelerated_dy: u64,
        device: Seq<char>,
    },
    PointerMotionAbsolute { time_us: u64, x: u64, y: u64, device: Seq<char> },
    PointerButton { time_us: u64, button: u32, pressed: bool, device: Seq<char> },
    PointerAxis {
        time_us: u64,
        horizontal: u64,
        vertical: u64,
        horizontal_v120: Option<u64>,
        vertical_v120: Option<u64>,
        source: AxisSource,
        device: Seq<char>,
    },
    GestureSwipe {
        time_us: u64,
        phase: GesturePhase,
        fingers: u32,
        dx: u64,
        dy: u64,
        device: Seq<char>,
    },
    GesturePinch {
        time_us: u64,
        phase: GesturePhase,
        fingers: u32,
        dx: u64,
        dy: u64,
        scale: u64,
        rotation: u64,
        device: Seq<char>,
    },
    GestureHold { time_us: u64, phase: GesturePhase, fingers: u32, device: Seq<char> },
    Touch {
        time_us: u64,
        slot: i32,
        phase: TouchPhase,
        x: Option<u64>,
        y: Option<u64>,
        device: Seq<char>,
    },
    FocusChanged { output: Option<Seq<char>>, surface: Option<Seq<char>>, active: bool },
    GrabCancelled { token: u64, reason: GrabCancelReason },
}

impl View for NormalizedInputEvent {
    type V = EventModel;

    open spec fn view(&self) -> EventModel {
        match *self {
            NormalizedInputEvent::DeviceAdded { device, name, kind } => EventModel::DeviceAdded {
                device: device@,
                name: name@,
                kind,
            },
            NormalizedInputEvent::DeviceRemoved { device, kind } => EventModel::DeviceRemoved {
                device: device@,
                kind,
            },
            NormalizedInputEvent::Keyboard(key) => EventModel::Keyboard(key@),
            NormalizedInputEvent::PointerMotion {
                time_us,
                dx,
                dy,
                unaccelerated_dx,
                unaccelerated_dy,
                device,
            } => EventModel::PointerMotion {
                time_us,
                dx,
                dy,
                unaccelerated_dx,
                unaccelerated_dy,
                device: device@,
            },
            NormalizedInputEvent::PointerMotionAbsolute { time_us, x, y, device } => {
                EventModel::PointerMotionAbsolute { time_us, x, y, device: device@ }
            },
            NormalizedInputEvent::PointerButton { time_us, button, pressed, device } => {
                EventModel::PointerButton { time_us, button, pressed, device: device@ }
            },
            NormalizedInputEvent::PointerAxis {
                time_us,
                horizontal,
                vertical,
                horizontal_v120,
                vertical_v120,
                source,
                device,
            } => EventModel::PointerAxis {
                time_us,
                horizontal,
                vertical,
                horizontal_v120,
                vertical_v120,
                source,
                device: device@,
            },
            NormalizedInputEvent::GestureSwipe { time_us, phase, fingers, dx, dy, device } => {
                EventModel::GestureSwipe { time_us, phase, fingers, dx, dy, device: device@ }
            },
            NormalizedInputEvent::GesturePinch {
                time_us,
                phase,
                fingers,
                dx,
                dy,
                scale,
                rotation,
                device,
            } => EventModel::GesturePinch {
                time_us,
                phase,
                fingers,
                dx,
                dy,
                scale,
                rotation,
                device: device@,
            },
            NormalizedInputEvent::GestureHold { time_us, phase, fingers, device } => {
                EventModel::GestureHold { time_us, phase, fingers, device: device@ }
            },
            NormalizedInputEvent::Touch { time_us, slot, phase, x, y, device } => {
                EventModel::Touch { time_us, slot, phase, x, y, device: device@ }
            },
            NormalizedInputEvent::FocusChanged { output, surface, active } => {
                EventModel::FocusChanged {
                    output: option_view(output),
                    surface: option_view(surface),
                    active,
                }
            },
            NormalizedInputEvent::GrabCancelled { token, reason } => EventModel::GrabCancelled {
                token,
                reason,
            },
        }
    }
}

pub open spec fn event_views(list: Seq<NormalizedInputEvent>) -> Seq<EventModel> {
    Seq::new(list.len(), |i: int| list[i]@)
}

proof fn event_views_push(list: Seq<NormalizedInputEvent>, item: NormalizedInputEvent)
    ensures
        event_views(list.push(item)) == event_views(list).push(item@),
{
    assert(event_views(list.push(item)) =~= event_views(list).push(item@));
}

/// A list of one event.
fn only(event: NormalizedInputEvent) -> (events: Vec<NormalizedInputEvent>)
    ensures
        event_views(events@) == seq![event@],
{
    let ghost told = event@;
    let mut events: Vec<NormalizedInputEvent> = Vec::new();
    events.push(event);
    assert(event_views(events@) =~= seq![told]);
    events
}

/// The axis source of a backend event.
#[derive(Debug, Clone, Copy, PartialEq, Eq, Structural)]
pub enum RawAxisSource {
    Wheel,
    Finger,
    Continuous,
    WheelTilt,
}

/// An input event as a backend reports it, in plain values. What a backend
/// did not supply is `None`; numbers are unchecked.
#[derive(Debug, Clone)]
pub enum RawInputEvent {
    DeviceAdded {
        device: String,
        name: String,
        keyboard: bool,
        pointer: bool,
        touch: bool,
        tablet: bool,
        gesture: bool,
    },
    DeviceRemoved { device: String },
    Keyboard(KeySample),
    PointerMotion {
        time_us: u64,
        dx: u64,
        dy: u64,
        unaccelerated_dx: u64,
        unaccelerated_dy: u64,
        device: String,
    },
    PointerMotionAbsolute { time_us: u64, x: u64, y: u64, device: String },
    PointerButton { time_us: u64, button: u32, pressed: bool, device: String },
    PointerAxis {
        time_us: u64,
        horizontal: Option<u64>,
        vertical: Option<u64>,
        horizontal_v120: Option<u64>,
        vertical_v120: Option<u64>,
        source: RawAxisSource,
        device: String,
    },
    GestureSwipeBegin { time_us: u64, fingers: u32, device: String },
    GestureSwipeUpdate { time_us: u64, fingers: u32, dx: u64, dy: u64, device: String },
    GestureSwipeEnd { time_us: u64, fingers: u32, cancelled: bool, device: String },
    GesturePinchBegin { time_us: u64, fingers: u32, device: String },
    GesturePinchUpdate {
        time_us: u64,
        fingers: u32,
        dx: u64,
        dy: u64,
        scale: u64,
        rotation: u64,
        device: String,
    },
    GesturePinchEnd { time_us: u64, fingers: u32, cancelled: bool, device: String },
    GestureHoldBegin { time_us: u64, fingers: u32, device: String },
    GestureHoldEnd { time_us: u64, fingers: u32, cancelled: bool, device: String },
    TouchDown { time_us: u64, slot: i32, x: u64, y: u64, device: String },
    TouchMotion { time_us: u64, slot: i32, x: u64, y: u64, device: String },
    TouchUp { time_us: u64, slot: i32, device: String },
    TouchCancel { time_us: u64, slot: i32, device: String },
    TouchFrame { time_us: u64, device: String },
    /// A tablet, switch or special event. They are not turned into pointer
    /// events.
    Other,
}

/// Seat focus state owned by the compositor, not by a client.
#[derive(Debug, Clone, PartialEq, Eq)]
pub struct FocusState {
    /// Whether the seat is active.
    pub active: bool,
    /// Current output name.
    pub output: Option<String>,
    /// Current surface token.
    pub surface: Option<String>,
}

#[verifier::ext_equal]
pub struct FocusModel {
    pub active: bool,
    pub output: Option<Seq<char>>,
    pub surface: Option<Seq<char>>,
}

impl View for FocusState {
    type V = FocusModel;

    open spec fn view(&self) -> FocusModel {
        FocusModel {
            active: self.active,
            output: option_view(self.output),
            surface: option_view(self.surface),
        }
    }
}

pub open spec fn no_focus() -> FocusModel {
    FocusModel { active: false, output: None, surface: None }
}

impl Default for FocusState {
    fn default() -> (focus: Self)
        ensures
            focus@ == no_focus(),
    {
        FocusState { active: false, output: None, surface: None }
    }
}

/// What a normalizer holds.
#[verifier::ext_equal]
pub struct NormalizerModel {
    pub repeat: RepeaterModel,
    pub focus: FocusModel,
    pub active_grab: Option<u64>,
    pub devices: Map<Seq<char>, DeviceKind>,
    pub last_time_us: u64,
}

pub open spec fn known_kind(devices: Map<Seq<char>, DeviceKind>, device: Seq<char>) -> DeviceKind {
    if devices.contains_key(device) {
        devices[device]
    } else {
        DeviceKind::Unknown
    }
}

/// The clock after a list of key events.
pub open spec fn clock_after(last: u64, keys: Seq<KeyModel>) -> u64
    decreases keys.len(),
{
    if keys.len() == 0 {
        last
    } else {
        larger(clock_after(last, keys.drop_last()) as int, keys.last().time_us as int) as u64
    }
}

/// Key events on a clock that stands at `last`.
pub open spec fn clocked(last: u64, keys: Seq<KeyModel>) -> Seq<EventModel>
    decreases keys.len(),
{
    if keys.len() == 0 {
        Seq::empty()
    } else {
        clocked(last, keys.drop_last()).push(
            EventModel::Keyboard(KeyModel { time_us: clock_after(last, keys), ..keys.last() }),
        )
    }
}

pub open spec fn delivery(state: PhysicalKeyState) -> crate::key_repeat::KeyDelivery {
    match state {
        PhysicalKeyState::Pressed => crate::key_repeat::KeyDelivery::Pressed,
        PhysicalKeyState::Released => crate::key_repeat::KeyDelivery::Released,
    }
}

impl NormalizerModel {
    pub open spec fn wf(self) -> bool {
        self.repeat.wf()
    }

    pub open spec fn fresh(config: KeyRepeatConfig) -> Self {
        NormalizerModel {
            repeat: RepeaterModel::fresh(config),
            focus: no_focus(),
            active_grab: None,
            devices: Map::empty(),
            last_time_us: 0,
        }
    }

    /// The time at which a sample counts.
    pub open spec fn time(self, time_us: u64) -> u64 {
        larger(self.last_time_us as int, time_us as int) as u64
    }

    pub open spec fn at(self, time_us: u64) -> Self {
        NormalizerModel { last_time_us: self.time(time_us), ..self }
    }

    /// The event that releases the grab, if there is one.
    pub open spec fn release(self, reason: GrabCancelReason) -> Seq<EventModel> {
        match self.active_grab {
            Some(token) => seq![EventModel::GrabCancelled { token, reason }],
            None => Seq::empty(),
        }
    }

    /// The normalizer once a grab was asked for; zero asks for none.
    pub open spec fn granted(self, token: u64) -> Self {
        if token == 0 {
            self
        } else {
            NormalizerModel { active_grab: Some(token), ..self }
        }
    }

    /// The events of a grab that is asked for: it replaces the one before it.
    pub open spec fn grant_events(self, token: u64) -> Seq<EventModel> {
        if token == 0 {
            Seq::empty()
        } else {
            self.release(GrabCancelReason::Replaced)
        }
    }

    pub open spec fn without_device(self, device: Seq<char>) -> Self {
        NormalizerModel {
            devices: self.devices.remove(device),
            repeat: RepeaterModel { held: None, ..self.repeat },
            active_grab: None,
            ..self
        }
    }

    /// The key events that a sample gives, before they are put on the clock.
    pub open spec fn sample_keys(self, sample: KeySample) -> Seq<KeyModel> {
        seq![
            KeyModel {
                time_us: self.repeat.event_time(sample.time_us),
                keycode: sample.keycode,
                state: delivery(sample.state),
                device: sample.device@,
            },
        ]
    }

    pub open spec fn after_sample(self, sample: KeySample) -> Self {
        NormalizerModel {
            repeat: self.repeat.after_key(
                sample.time_us,
                sample.keycode,
                sample.state,
                sample.device@,
            ),
            last_time_us: clock_after(self.last_time_us, self.sample_keys(sample)),
            ..self
        }
    }

    pub open spec fn after_repeat(self, now_ms: u64) -> Self {
        NormalizerModel {
            repeat: self.repeat.after_tick(now_ms),
            last_time_us: clock_after(self.last_time_us, self.repeat.due_events(now_ms)),
            ..self
        }
    }

    /// The state after a change of focus. Losing either half of it releases
    /// the grab.
    pub open spec fn focused(self, output: Option<Seq<char>>, surface: Option<Seq<char>>) -> Self {
        let focus = FocusModel { active: self.focus.active, output, surface };
        if focus == self.focus {
            self
        } else {
            NormalizerModel {
                focus,
                active_grab: if output is None || surface is None {
                    None
                } else {
                    self.active_grab
                },
                ..self
            }
        }
    }

    pub open spec fn focus_events(
        self,
        output: Option<Seq<char>>,
        surface: Option<Seq<char>>,
    ) -> Seq<EventModel> {
        let focus = FocusModel { active: self.focus.active, output, surface };
        let change = EventModel::FocusChanged { output, surface, active: self.focus.active };
        if focus == self.focus {
            Seq::empty()
        } else if output is None || surface is None {
            self.release(GrabCancelReason::FocusLost).push(change)
        } else {
            seq![change]
        }
    }

    /// The state after the seat became active or inactive.
    pub open spec fn seated(self, active: bool) -> Self {
        if self.focus.active == active {
            self
        } else {
            NormalizerModel {
                focus: if active {
                    FocusModel { active, ..self.focus }
                } else {
                    no_focus()
                },
                active_grab: if active {
                    self.active_grab
                } else {
                    None
                },
                repeat: RepeaterModel { held: None, ..self.repeat },
                ..self
            }
        }
    }

    pub open spec fn seat_events(self, active: bool, reason: GrabCancelReason) -> Seq<EventModel> {
        if self.focus.active == active {
            Seq::empty()
        } else if active {
            seq![
                EventModel::FocusChanged {
                    output: self.focus.output,
                    surface: self.focus.surface,
                    active,
                },
            ]
        } else {
            self.release(reason).push(
                EventModel::FocusChanged { output: None, surface: None, active },
            )
        }
    }

    /// The state after a backend event.
    pub open spec fn after(self, event: RawInputEvent) -> Self {
        match event {
            RawInputEvent::DeviceAdded {
                device,
                name,
                keyboard,
                pointer,
                touch,
                tablet,
                gesture,
            } => NormalizerModel {
                devices: self.devices.insert(
                    device@,
                    class_of(keyboard, pointer, touch, tablet, gesture),
                ),
                ..self
            },
            RawInputEvent::DeviceRemoved { device } => self.without_device(device@),
            RawInputEvent::Keyboard(sample) => self.after_sample(sample),
            RawInputEvent::Other => self,
            _ => self.at(raw_time(event)),
        }
    }

    /// The normalized events of a backend event.
    pub open spec fn events(self, event: RawInputEvent) -> Seq<EventModel> {
        let time_us = self.time(raw_time(event));
        match event {
            RawInputEvent::DeviceAdded {
                device,
                name,
                keyboard,
                pointer,
                touch,
                tablet,
                gesture,
            } => seq![
                EventModel::DeviceAdded {
                    device: device@,
                    name: name@,
                    kind: class_of(keyboard, pointer, touch, tablet, gesture),
                },
            ],
            RawInputEvent::DeviceRemoved { device } => seq![
                EventModel::DeviceRemoved {
                    device: device@,
                    kind: known_kind(self.devices, device@),
                },
            ] + self.release(GrabCancelReason::DeviceRemoved),
            RawInputEvent::Keyboard(sample) => clocked(
                self.last_time_us,
                self.sample_keys(sample),
            ),
            RawInputEvent::PointerMotion {
                dx,
                dy,
                unaccelerated_dx,
                unaccelerated_dy,
                device,
                ..
            } => seq![
                EventModel::PointerMotion {
                    time_us,
                    dx: sane_delta(dx),
                    dy: sane_delta(dy),
                    unaccelerated_dx: sane_delta(unaccelerated_dx),
                    unaccelerated_dy: sane_delta(unaccelerated_dy),
                    device: device@,
                },
            ],
            RawInputEvent::PointerMotionAbsolute { x, y, device, .. } => seq![
                EventModel::PointerMotionAbsolute {
                    time_us,
                    x: sane_delta(x),
                    y: sane_delta(y),
                    device: device@,
                },
            ],
            RawInputEvent::PointerButton { button, pressed, device, .. } => seq![
                EventModel::PointerButton { time_us, button, pressed, device: device@ },
            ],
            RawInputEvent::PointerAxis {
                horizontal,
                vertical,
                horizontal_v120,
                vertical_v120,
                source,
                device,
                ..
            } => seq![
                EventModel::PointerAxis {
                    time_us,
                    horizontal: sane_amount(horizontal),
                    vertical: sane_amount(vertical),
                    horizontal_v120: sane_option(horizontal_v120),
                    vertical_v120: sane_option(vertical_v120),
                    source: axis_source(source),
                    device: device@,
                },
            ],
            RawInputEvent::GestureSwipeBegin { fingers, device, .. } => seq![
                swipe(time_us, GesturePhase::Begin, fingers, 0, 0, device@),
            ],
            RawInputEvent::GestureSwipeUpdate { fingers, dx, dy, device, .. } => seq![
                swipe(time_us, GesturePhase::Update, fingers, dx, dy, device@),
            ],
            RawInputEvent::GestureSwipeEnd { fingers, cancelled, device, .. } => seq![
                swipe(time_us, GesturePhase::End { cancelled }, fingers, 0, 0, device@),
            ],
            RawInputEvent::GesturePinchBegin { fingers, device, .. } => seq![
                pinch(time_us, GesturePhase::Begin, fingers, 0, 0, ONE, 0, device@),
            ],
            RawInputEvent::GesturePinchUpdate {
                fingers,
                dx,
                dy,
                scale,
                rotation,
                device,
                ..
            } => seq![
                pinch(
                    time_us,
                    GesturePhase::Update,
                    fingers,
                    dx,
                    dy,
                    sane_delta(scale),
                    rotation,
                    device@,
                ),
            ],
            RawInputEvent::GesturePinchEnd { fingers, cancelled, device, .. } => seq![
                pinch(time_us, GesturePhase::End { cancelled }, fingers, 0, 0, ONE, 0, device@),
            ],
            RawInputEvent::GestureHoldBegin { fingers, device, .. } => seq![
                EventModel::GestureHold {
                    time_us,
                    phase: GesturePhase::Begin,
                    fingers,
                    device: device@,
                },
            ],
            RawInputEvent::GestureHoldEnd { fingers, cancelled, device, .. } => seq![
                EventModel::GestureHold {
                    time_us,
                    phase: GesturePhase::End { cancelled },
                    fingers,
                    device: device@,
                },
            ],
            RawInputEvent::TouchDown { slot, x, y, device, .. } => seq![
                touch(time_us, slot, TouchPhase::Down, Some(x), Some(y), device@),
            ],
            RawInputEvent::TouchMotion { slot, x, y, device, .. } => seq![
                touch(time_us, slot, TouchPhase::Motion, Some(x), Some(y), device@),
            ],
            RawInputEvent::TouchUp { slot, device, .. } => seq![
                touch(time_us, slot, TouchPhase::Up, None, None, device@),
            ],
            RawInputEvent::TouchCancel { slot, device, .. } => seq![
                touch(time_us, slot, TouchPhase::Cancel, None, None, device@),
            ],
            RawInputEvent::TouchFrame { device, .. } => seq![
                touch(time_us, (-1) as i32, TouchPhase::Frame, None, None, device@),
            ],
            RawInputEvent::Other => Seq::empty(),
        }
    }
}

/// The timestamp of a backend event; zero where it has none.
pub open spec fn raw_time(event: RawInputEvent) -> u64 {
    match event {
        RawInputEvent::PointerMotion { time_us, .. } => time_us,
        RawInputEvent::PointerMotionAbsolute { time_us, .. } => time_us,
        RawInputEvent::PointerButton { time_us, .. } => time_us,
        RawInputEvent::PointerAxis { time_us, .. } => time_us,
        RawInputEvent::GestureSwipeBegin { time_us, .. } => time_us,
        RawInputEvent::GestureSwipeUpdate { time_us, .. } => time_us,
        RawInputEvent::GestureSwipeEnd { time_us, .. } => time_us,
        RawInputEvent::GesturePinchBegin { time_us, .. } => time_us,
        RawInputEvent::GesturePinchUpdate { time_us, .. } => time_us,
        RawInputEvent::GesturePinchEnd { time_us, .. } => time_us,
        RawInputEvent::GestureHoldBegin { time_us, .. } => time_us,
        RawInputEvent::GestureHoldEnd { time_us, .. } => time_us,
        RawInputEvent::TouchDown { time_us, .. } => time_us,
        RawInputEvent::TouchMotion { time_us, .. } => time_us,
        RawInputEvent::TouchUp { time_us, .. } => time_us,
        RawInputEvent::TouchCancel { time_us, .. } => time_us,
        RawInputEvent::TouchFrame { time_us, .. } => time_us,
        _ => 0,
    }
}

pub open spec fn axis_source(source: RawAxisSource) -> AxisSource {
    match source {
        RawAxisSource::Wheel | RawAxisSource::WheelTilt => AxisSource::Wheel,
        RawAxisSource::Finger => AxisSource::Finger,
        RawAxisSource::Continuous => AxisSource::Continuous,
    }
}

pub open spec fn swipe(
    time_us: u64,
    phase: GesturePhase,
    fingers: u32,
    dx: u64,
    dy: u64,
    device: Seq<char>,
) -> EventModel {
    EventModel::GestureSwipe {
        time_us,
        phase,
        fingers,
        dx: sane_delta(dx),
        dy: sane_delta(dy),
        device,
    }
}

pub open spec fn pinch(
    time_us: u64,
    phase: GesturePhase,
    fingers: u32,
    dx: u64,
    dy: u64,
    scale: u64,
    rotation: u64,
    device: Seq<char>,
) -> EventModel {
    EventModel::GesturePinch {
        time_us,
        phase,
        fingers,
        dx: sane_delta(dx),
        dy: sane_delta(dy),
        scale: sane_pinch(scale),
        rotation: sane_delta(rotation),
        device,
    }
}

pub open spec fn touch(
    time_us: u64,
    slot: i32,
    phase: TouchPhase,
    x: Option<u64>,
    y: Option<u64>,
    device: Seq<char>,
) -> EventModel {
    EventModel::Touch { time_us, slot, phase, x: sane_option(x), y: sane_option(y), device }
}

// ---- known devices -----------------------------------------------------------

spec fn device_map(list: Seq<(String, DeviceKind)>) -> Map<Seq<char>, DeviceKind>
    decreases list.len(),
{
    if list.len() == 0 {
        Map::empty()
    } else {
        device_map(list.drop_last()).insert(list.last().0@, list.last().1)
    }
}

spec fn distinct(list: Seq<(String, DeviceKind)>) -> bool {
    forall|i: int, j: int|
        0 <= i < list.len() && 0 <= j < list.len() && i != j ==> (#[trigger] list[i]).0@ != (
        #[trigger] list[j]).0@
}

proof fn device_map_holds(list: Seq<(String, DeviceKind)>, i: int)
    requires
        distinct(list),
        0 <= i < list.len(),
    ensures
        device_map(list).contains_key(list[i].0@),
        device_map(list)[list[i].0@] == list[i].1,
    decreases list.len(),
{
    if i < list.len() - 1 {
        let rest = list.drop_last();
        assert(distinct(rest)) by {
            assert forall|a: int, b: int|
                0 <= a < rest.len() && 0 <= b < rest.len() && a != b implies (#[trigger] rest[a]).0@
                != (#[trigger] rest[b]).0@ by {
                assert(list[a].0@ != list[b].0@);
            }
        }
        device_map_holds(rest, i);
        assert(list[i].0@ != list[list.len() - 1].0@);
    }
}

proof fn device_map_lacks(list: Seq<(String, DeviceKind)>, device: Seq<char>)
    requires
        forall|i: int| 0 <= i < list.len() ==> (#[trigger] list[i]).0@ != device,
    ensures
        !device_map(list).contains_key(device),
    decreases list.len(),
{
    if list.len() > 0 {
        assert(list[list.len() - 1].0@ != device);
        assert forall|i: int| 0 <= i < list.drop_last().len() implies (
        #[trigger] list.drop_last()[i]).0@ != device by {
            assert(list[i].0@ != device);
        }
        device_map_lacks(list.drop_last(), device);
    }
}

proof fn device_map_without(list: Seq<(String, DeviceKind)>, i: int)
    requires
        distinct(list),
        0 <= i < list.len(),
    ensures
        device_map(list.remove(i)) == device_map(list).remove(list[i].0@),
        distinct(list.remove(i)),
    decreases list.len(),
{
    let key = list[i].0@;
    let less = list.remove(i);
    assert forall|a: int, b: int|
        0 <= a < less.len() && 0 <= b < less.len() && a != b implies (#[trigger] less[a]).0@ != (
    #[trigger] less[b]).0@ by {
        let x = if a < i {
            a
        } else {
            a + 1
        };
        let y = if b < i {
            b
        } else {
            b + 1
        };
        assert(list[x].0@ != list[y].0@);
    }
    let rest = list.drop_last();
    assert forall|a: int, b: int|
        0 <= a < rest.len() && 0 <= b < rest.len() && a != b implies (#[trigger] rest[a]).0@ != (
    #[trigger] rest[b]).0@ by {
        assert(list[a].0@ != list[b].0@);
    }
    if i == list.len() - 1 {
        assert(less =~= rest);
        assert forall|a: int| 0 <= a < rest.len() implies (#[trigger] rest[a]).0@ != key by {
            assert(list[a].0@ != list[i].0@);
        }
        device_map_lacks(rest, key);
        assert(device_map(rest) =~= device_map(list).remove(key));
    } else {
        device_map_without(rest, i);
        assert(less.drop_last() =~= rest.remove(i));
        assert(less.last() == list.last());
        assert(list[i].0@ != list[list.len() - 1].0@);
        assert(device_map(less) =~= device_map(list).remove(key));
    }
}

// ---- the normalizer ------------------------------------------------------------

/// A normalized seat input state machine.
#[derive(Debug, Clone)]
pub struct InputNormalizer {
    repeat: KeyRepeater,
    focus: FocusState,
    active_grab: Option<u64>,
    devices: Vec<(String, DeviceKind)>,
    last_time_us: u64,
}

impl InputNormalizer {
    pub closed spec fn model(&self) -> NormalizerModel {
        NormalizerModel {
            repeat: self.repeat.model(),
            focus: self.focus@,
            active_grab: self.active_grab,
            devices: device_map(self.devices@),
            last_time_us: self.last_time_us,
        }
    }

    /// The repeater is within its limits and no device is listed twice.
    pub closed spec fn wf(&self) -> bool {
        self.repeat.wf() && distinct(self.devices@)
    }

    /// A normalizer with the given key-repeat policy.
    pub fn new(repeat: KeyRepeatConfig) -> (normalizer: Self)
        ensures
            normalizer.wf(),
            normalizer.model() == NormalizerModel::fresh(repeat),
    {
        InputNormalizer {
            repeat: KeyRepeater::new(repeat),
            focus: FocusState::default(),
            active_grab: None,
            devices: Vec::new(),
            last_time_us: 0,
        }
    }

    /// The current focus, which callers cannot change silently.
    pub fn focus(&self) -> (focus: &FocusState)
        ensures
            focus@ == self.model().focus,
    {
        &self.focus
    }

    /// The currently active grab token, if any.
    pub fn active_grab(&self) -> (token: Option<u64>)
        ensures
            token == self.model().active_grab,
    {
        self.active_grab
    }

    fn device_index(&self, device: &str) -> (found: Option<usize>)
        requires
            self.wf(),
        ensures
            match found {
                Some(i) => i < self.devices.len() && self.devices@[i as int].0@ == device@
                    && self.model().devices.contains_key(device@)
                    && self.model().devices[device@] == self.devices@[i as int].1,
                None => !self.model().devices.contains_key(device@) && forall|k: int|
                    0 <= k < self.devices.len() ==> (#[trigger] self.devices@[k]).0@ != device@,
            },
    {
        let mut i: usize = 0;
        while i < self.devices.len()
            invariant
                i <= self.devices.len(),
                self.wf(),
                forall|k: int| 0 <= k < i ==> (#[trigger] self.devices@[k]).0@ != device@,
            decreases self.devices.len() - i,
        {
            if same(self.devices[i].0.as_str(), device) {
                proof {
                    device_map_holds(self.devices@, i as int);
                }
                return Some(i);
            }
            i += 1;
        }
        proof {
            device_map_lacks(self.devices@, device@);
        }
        None
    }

    /// The last known class of a device.
    pub fn device_kind(&self, device: &str) -> (kind: DeviceKind)
        requires
            self.wf(),
        ensures
            kind == known_kind(self.model().devices, device@),
    {
        match self.device_index(device) {
            Some(i) => self.devices[i].1,
            None => DeviceKind::Unknown,
        }
    }

    fn forget_device(&mut self, device: &str)
        requires
            old(self).wf(),
        ensures
            final(self).wf(),
            final(self).model() == (NormalizerModel {
                devices: old(self).model().devices.remove(device@),
                ..old(self).model()
            }),
            forall|k: int|
                0 <= k < final(self).devices.len() ==> (#[trigger] final(self).devices@[k]).0@
                    != device@,
    {
        match self.device_index(device) {
            Some(i) => {
                proof {
                    device_map_without(self.devices@, i as int);
                    assert forall|k: int| 0 <= k < self.devices@.remove(i as int).len() implies (
                    #[trigger] self.devices@.remove(i as int)[k]).0@ != device@ by {
                        let q = if k < i {
                            k
                        } else {
                            k + 1
                        };
                        assert(self.devices@[q].0@ != self.devices@[i as int].0@);
                    }
                }
                self.devices.remove(i);
            },
            None => {
                assert(self.model().devices.remove(device@) =~= self.model().devices);
            },
        }
    }

    /// Registers a device and gives its arrival event.
    pub fn device_added(&mut self, device: String, name: String, kind: DeviceKind) -> (event:
        NormalizedInputEvent)
        requires
            old(self).wf(),
        ensures
            final(self).wf(),
            final(self).model() == (NormalizerModel {
                devices: old(self).model().devices.insert(device@, kind),
                ..old(self).model()
            }),
            event@ == (EventModel::DeviceAdded { device: device@, name: name@, kind }),
    {
        let ghost before = self.model().devices;
        self.forget_device(device.as_str());
        let ghost others = self.devices@;
        self.devices.push((device.clone(), kind));
        proof {
            assert(self.devices@.drop_last() =~= others);
            assert(before.remove(device@).insert(device@, kind) =~= before.insert(device@, kind));
        }
        NormalizedInputEvent::DeviceAdded { device, name, kind }
    }

    /// Removes a device and cancels any grab which could keep stale state.
    pub fn device_removed(&mut self, device: String) -> (events: Vec<NormalizedInputEvent>)
        requires
            old(self).wf(),
        ensures
            final(self).wf(),
            final(self).model() == old(self).model().without_device(device@),
            event_views(events@) == seq![
                EventModel::DeviceRemoved {
                    device: device@,
                    kind: known_kind(old(self).model().devices, device@),
                },
            ] + old(self).model().release(GrabCancelReason::DeviceRemoved),
    {
        let kind = self.device_kind(device.as_str());
        self.forget_device(device.as_str());
        self.repeat.cancel();
        let ghost first = EventModel::DeviceRemoved { device: device@, kind };
        let mut events = only(NormalizedInputEvent::DeviceRemoved { device, kind });
        match self.cancel_grab(GrabCancelReason::DeviceRemoved) {
            Some(cancelled) => {
                proof {
                    event_views_push(events@, cancelled);
                    assert(seq![first].push(cancelled@) =~= seq![first] + seq![cancelled@]);
                }
                events.push(cancelled);
            },
            None => {
                assert(seq![first] + Seq::<EventModel>::empty() =~= seq![first]);
            },
        }
        events
    }

    /// Puts key events on the clock of the stream.
    fn clock_keys(&mut self, keys: Vec<KeyEvent>) -> (events: Vec<NormalizedInputEvent>)
        requires
            old(self).wf(),
        ensures
            final(self).wf(),
            final(self).model() == (NormalizerModel {
                last_time_us: clock_after(old(self).model().last_time_us, key_views(keys@)),
                ..old(self).model()
            }),
            event_views(events@) == clocked(old(self).model().last_time_us, key_views(keys@)),
    {
        let ghost before = self.model();
        let ghost all = key_views(keys@);
        let mut events: Vec<NormalizedInputEvent> = Vec::new();
        let mut i: usize = 0;
        assert(all.subrange(0, 0) =~= Seq::empty());
        assert(event_views(events@) =~= Seq::empty());
        while i < keys.len()
            invariant
                i <= keys.len(),
                all == key_views(keys@),
                self.wf(),
                self.model() == (NormalizerModel {
                    last_time_us: clock_after(before.last_time_us, all.subrange(0, i as int)),
                    ..before
                }),
                event_views(events@) == clocked(before.last_time_us, all.subrange(0, i as int)),
            decreases keys.len() - i,
        {
            let ghost next = all.subrange(0, i + 1);
            assert(next.drop_last() =~= all.subrange(0, i as int));
            assert(next.last() == keys@[i as int]@);
            let time_us: u64 = self.timestamp(keys[i].time_us);
            let event = NormalizedInputEvent::Keyboard(
                KeyEvent {
                    time_us,
                    keycode: keys[i].keycode,
                    state: keys[i].state,
                    device: keys[i].device.clone(),
                },
            );
            proof {
                event_views_push(events@, event);
            }
            events.push(event);
            i += 1;
        }
        assert(all.subrange(0, i as int) =~= all);
        events
    }

    /// Normalizes one physical key event and arms or cancels key repeat.
    pub fn keyboard(&mut self, sample: KeySample) -> (events: Vec<NormalizedInputEvent>)
        requires
            old(self).wf(),
        ensures
            final(self).wf(),
            final(self).model() == old(self).model().after_sample(sample),
            event_views(events@) == clocked(
                old(self).model().last_time_us,
                old(self).model().sample_keys(sample),
            ),
    {
        let ghost before = self.model();
        let keys = self.repeat.key(sample);
        assert(key_views(keys@) =~= before.sample_keys(sample));
        self.clock_keys(keys)
    }

    /// Gives bounded repeat events for the current timer time.
    pub fn repeat_tick(&mut self, now_ms: u64) -> (events: Vec<NormalizedInputEvent>)
        requires
            old(self).wf(),
        ensures
            final(self).wf(),
            final(self).model() == old(self).model().after_repeat(now_ms),
            event_views(events@) == clocked(
                old(self).model().last_time_us,
                old(self).model().repeat.due_events(now_ms),
            ),
    {
        let keys = self.repeat.tick(now_ms);
        self.clock_keys(keys)
    }

    /// Changes focus atomically and cancels a grab when focus disappears.
    pub fn set_focus(&mut self, output: Option<String>, surface: Option<String>) -> (events: Vec<
        NormalizedInputEvent,
    >)
        requires
            old(self).wf(),
        ensures
            final(self).wf(),
            final(self).model() == old(self).model().focused(
                option_view(output),
                option_view(surface),
            ),
            event_views(events@) == old(self).model().focus_events(
                option_view(output),
                option_view(surface),
            ),
    {
        let ghost before = self.model();
        let ghost wanted = FocusModel {
            active: before.focus.active,
            output: option_view(output),
            surface: option_view(surface),
        };
        let mut events: Vec<NormalizedInputEvent> = Vec::new();
        assert(event_views(events@) =~= Seq::empty());
        if same_option(&self.focus.output, &output) && same_option(&self.focus.surface, &surface) {
            assert(self.focus@ =~= wanted);
            return events;
        }
        if output.is_none() || surface.is_none() {
            match self.cancel_grab(GrabCancelReason::FocusLost) {
                Some(cancelled) => {
                    proof {
                        event_views_push(events@, cancelled);
                    }
                    events.push(cancelled);
                },
                None => {},
            }
            assert(event_views(events@) =~= before.release(GrabCancelReason::FocusLost));
        }
        self.focus.output = copy_option(&output);
        self.focus.surface = copy_option(&surface);
        let event = NormalizedInputEvent::FocusChanged {
            output,
            surface,
            active: self.focus.active,
        };
        proof {
            event_views_push(events@, event);
            assert(self.model().focus =~= wanted);
        }
        let ghost told = event@;
        events.push(event);
        assert(event_views(events@) =~= before.focus_events(wanted.output, wanted.surface));
        events
    }

    /// Marks the seat active or inactive, and cancels all transient state when
    /// it is paused by a VT switch, suspend, or host deactivation.
    pub fn set_seat_active(&mut self, active: bool, reason: GrabCancelReason) -> (events: Vec<
        NormalizedInputEvent,
    >)
        requires
            old(self).wf(),
        ensures
            final(self).wf(),
            final(self).model() == old(self).model().seated(active),
            event_views(events@) == old(self).model().seat_events(active, reason),
    {
        let ghost before = self.model();
        let mut events: Vec<NormalizedInputEvent> = Vec::new();
        assert(event_views(events@) =~= Seq::empty());
        if self.focus.active == active {
            return events;
        }
        self.focus.active = active;
        self.repeat.cancel();
        if !active {
            match self.cancel_grab(reason) {
                Some(cancelled) => {
                    proof {
                        event_views_push(events@, cancelled);
                    }
                    events.push(cancelled);
                },
                None => {},
            }
            self.focus.output = None;
            self.focus.surface = None;
            assert(event_views(events@) =~= before.release(reason));
        }
        let event = NormalizedInputEvent::FocusChanged {
            output: copy_option(&self.focus.output),
            surface: copy_option(&self.focus.surface),
            active,
        };
        proof {
            event_views_push(events@, event);
        }
        events.push(event);
        assert(event_views(events@) =~= before.seat_events(active, reason));
        events
    }

    /// Starts or replaces an input grab. Zero is reserved for "no grab".
    pub fn begin_grab(&mut self, token: u64) -> (events: Vec<NormalizedInputEvent>)
        requires
            old(self).wf(),
        ensures
            final(self).wf(),
            final(self).model() == old(self).model().granted(token),
            event_views(events@) == old(self).model().grant_events(token),
    {
        let ghost before = self.model();
        let mut events: Vec<NormalizedInputEvent> = Vec::new();
        assert(event_views(events@) =~= Seq::empty());
        if token == 0 {
            return events;
        }
        match self.cancel_grab(GrabCancelReason::Replaced) {
            Some(cancelled) => {
                proof {
                    event_views_push(events@, cancelled);
                }
                events.push(cancelled);
            },
            None => {},
        }
        self.active_grab = Some(token);
        assert(event_views(events@) =~= before.release(GrabCancelReason::Replaced));
        events
    }

    /// Cancels the active grab, if there is one.
    pub fn cancel_grab(&mut self, reason: GrabCancelReason) -> (event: Option<NormalizedInputEvent>)
        ensures
            old(self).wf() ==> final(self).wf(),
            final(self).model() == (NormalizerModel { active_grab: None, ..old(self).model() }),
            match (event, old(self).model().active_grab) {
                (Some(cancelled), Some(token)) => cancelled@ == (EventModel::GrabCancelled {
                    token,
                    reason,
                }),
                (None, None) => true,
                _ => false,
            },
    {
        match self.active_grab.take() {
            Some(token) => Some(NormalizedInputEvent::GrabCancelled { token, reason }),
            None => None,
        }
    }

    /// Normalizes a relative motion sample.
    pub fn pointer_motion(
        &mut self,
        time_us: u64,
        dx: u64,
        dy: u64,
        unaccelerated_dx: u64,
        unaccelerated_dy: u64,
        device: String,
    ) -> (event: NormalizedInputEvent)
        requires
            old(self).wf(),
        ensures
            final(self).wf(),
            final(self).model() == old(self).model().at(time_us),
            event@ == (EventModel::PointerMotion {
                time_us: old(self).model().time(time_us),
                dx: sane_delta(dx),
                dy: sane_delta(dy),
                unaccelerated_dx: sane_delta(unaccelerated_dx),
                unaccelerated_dy: sane_delta(unaccelerated_dy),
                device: device@,
            }),
    {
        NormalizedInputEvent::PointerMotion {
            time_us: self.timestamp(time_us),
            dx: sanitize_delta(dx),
            dy: sanitize_delta(dy),
            unaccelerated_dx: sanitize_delta(unaccelerated_dx),
            unaccelerated_dy: sanitize_delta(unaccelerated_dy),
            device,
        }
    }

    fn timestamp(&mut self, time_us: u64) -> (time: u64)
        ensures
            old(self).wf() ==> final(self).wf(),
            final(self).model() == old(self).model().at(time_us),
            time == old(self).model().time(time_us),
    {
        if time_us > self.last_time_us {
            self.last_time_us = time_us;
        }
        self.last_time_us
    }

    /// Normalizes one backend event.
    pub fn normalize_native_event(&mut self, event: RawInputEvent) -> (events: Vec<
        NormalizedInputEvent,
    >)
        requires
            old(self).wf(),
        ensures
            final(self).wf(),
            final(self).model() == old(self).model().after(event),
            event_views(events@) == old(self).model().events(event),
    {
        match event {
            RawInputEvent::DeviceAdded {
                device,
                name,
                keyboard,
                pointer,
                touch,
                tablet,
                gesture,
            } => {
                let kind = classify_device_capabilities(keyboard, pointer, touch, tablet, gesture);
                only(self.device_added(device, name, kind))
            },
            RawInputEvent::DeviceRemoved { device } => self.device_removed(device),
            RawInputEvent::Keyboard(sample) => self.keyboard(sample),
            RawInputEvent::PointerMotion {
                time_us,
                dx,
                dy,
                unaccelerated_dx,
                unaccelerated_dy,
                device,
            } => only(
                self.pointer_motion(time_us, dx, dy, unaccelerated_dx, unaccelerated_dy, device),
            ),
            RawInputEvent::PointerMotionAbsolute { time_us, x, y, device } => only(
                NormalizedInputEvent::PointerMotionAbsolute {
                    time_us: self.timestamp(time_us),
                    x: sanitize_delta(x),
                    y: sanitize_delta(y),
                    device,
                },
            ),
            RawInputEvent::PointerButton { time_us, button, pressed, device } => only(
                NormalizedInputEvent::PointerButton {
                    time_us: self.timestamp(time_us),
                    button,
                    pressed,
                    device,
                },
            ),
            RawInputEvent::PointerAxis {
                time_us,
                horizontal,
                vertical,
                horizontal_v120,
                vertical_v120,
                source,
                device,
            } => {
                let source = match source {
                    RawAxisSource::Wheel => AxisSource::Wheel,
                    RawAxisSource::Finger => AxisSource::Finger,
                    RawAxisSource::Continuous => AxisSource::Continuous,
                    RawAxisSource::WheelTilt => AxisSource::Wheel,
                };
                only(
                    NormalizedInputEvent::PointerAxis {
                        time_us: self.timestamp(time_us),
                        horizontal: match horizontal {
                            Some(amount) => sanitize_delta(amount),
                            None => 0,
                        },
                        vertical: match vertical {
                            Some(amount) => sanitize_delta(amount),
                            None => 0,
                        },
                        horizontal_v120: sanitize_option(horizontal_v120),
                        vertical_v120: sanitize_option(vertical_v120),
                        source,
                        device,
                    },
                )
            },
            RawInputEvent::GestureSwipeBegin { time_us, fingers, device } => only(
                self.swipe_event(time_us, GesturePhase::Begin, fingers, 0, 0, device),
            ),
            RawInputEvent::GestureSwipeUpdate { time_us, fingers, dx, dy, device } => only(
                self.swipe_event(time_us, GesturePhase::Update, fingers, dx, dy, device),
            ),
            RawInputEvent::GestureSwipeEnd { time_us, fingers, cancelled, device } => only(
                self.swipe_event(time_us, GesturePhase::End { cancelled }, fingers, 0, 0, device),
            ),
            RawInputEvent::GesturePinchBegin { time_us, fingers, device } => only(
                self.pinch_event(time_us, GesturePhase::Begin, fingers, 0, 0, ONE, 0, device),
            ),
            RawInputEvent::GesturePinchUpdate {
                time_us,
                fingers,
                dx,
                dy,
                scale,
                rotation,
                device,
            } => only(
                self.pinch_event(
                    time_us,
                    GesturePhase::Update,
                    fingers,
                    dx,
                    dy,
                    sanitize_delta(scale),
                    rotation,
                    device,
                ),
            ),
            RawInputEvent::GesturePinchEnd { time_us, fingers, cancelled, device } => only(
                self.pinch_event(
                    time_us,
                    GesturePhase::End { cancelled },
                    fingers,
                    0,
                    0,
                    ONE,
                    0,
                    device,
                ),
            ),
            RawInputEvent::GestureHoldBegin { time_us, fingers, device } => only(
                NormalizedInputEvent::GestureHold {
                    time_us: self.timestamp(time_us),
                    phase: GesturePhase::Begin,
                    fingers,
                    device,
                },
            ),
            RawInputEvent::GestureHoldEnd { time_us, fingers, cancelled, device } => only(
                NormalizedInputEvent::GestureHold {
                    time_us: self.timestamp(time_us),
                    phase: GesturePhase::End { cancelled },
                    fingers,
                    device,
                },
            ),
            RawInputEvent::TouchDown { time_us, slot, x, y, device } => only(
                self.touch_event(time_us, slot, TouchPhase::Down, Some(x), Some(y), device),
            ),
            RawInputEvent::TouchMotion { time_us, slot, x, y, device } => only(
                self.touch_event(time_us, slot, TouchPhase::Motion, Some(x), Some(y), device),
            ),
            RawInputEvent::TouchUp { time_us, slot, device } => only(
                self.touch_event(time_us, slot, TouchPhase::Up, None, None, device),
            ),
            RawInputEvent::TouchCancel { time_us, slot, device } => only(
                self.touch_event(time_us, slot, TouchPhase::Cancel, None, None, device),
            ),
            RawInputEvent::TouchFrame { time_us, device } => only(
                self.touch_event(time_us, -1, TouchPhase::Frame, None, None, device),
            ),
            RawInputEvent::Other => {
                let events: Vec<NormalizedInputEvent> = Vec::new();
                assert(event_views(events@) =~= Seq::empty());
                events
            },
        }
    }

    fn swipe_event(
        &mut self,
        time_us: u64,
        phase: GesturePhase,
        fingers: u32,
        dx: u64,
        dy: u64,
        device: String,
    ) -> (event: NormalizedInputEvent)
        ensures
            old(self).wf() ==> final(self).wf(),
            final(self).model() == old(self).model().at(time_us),
            event@ == swipe(old(self).model().time(time_us), phase, fingers, dx, dy, device@),
    {
        NormalizedInputEvent::GestureSwipe {
            time_us: self.timestamp(time_us),
            phase,
            fingers,
            dx: sanitize_delta(dx),
            dy: sanitize_delta(dy),
            device,
        }
    }

    fn pinch_event(
        &mut self,
        time_us: u64,
        phase: GesturePhase,
        fingers: u32,
        dx: u64,
        dy: u64,
        scale: u64,
        rotation: u64,
        device: String,
    ) -> (event: NormalizedInputEvent)
        ensures
            old(self).wf() ==> final(self).wf(),
            final(self).model() == old(self).model().at(time_us),
            event@ == pinch(
                old(self).model().time(time_us),
                phase,
                fingers,
                dx,
                dy,
                scale,
                rotation,
                device@,
            ),
    {
        NormalizedInputEvent::GesturePinch {
            time_us: self.timestamp(time_us),
            phase,
            fingers,
            dx: sanitize_delta(dx),
            dy: sanitize_delta(dy),
            scale: sanitize_pinch(scale),
            rotation: sanitize_delta(rotation),
            device,
        }
    }

    fn touch_event(
        &mut self,
        time_us: u64,
        slot: i32,
        phase: TouchPhase,
        x: Option<u64>,
        y: Option<u64>,
        device: String,
    ) -> (event: NormalizedInputEvent)
        ensures
            old(self).wf() ==> final(self).wf(),
            final(self).model() == old(self).model().at(time_us),
            event@ == touch(old(self).model().time(time_us), slot, phase, x, y, device@),
    {
        NormalizedInputEvent::Touch {
            time_us: self.timestamp(time_us),
            slot,
            phase,
            x: sanitize_option(x),
            y: sanitize_option(y),
            device,
        }
    }
}

impl Default for InputNormalizer {
    fn default() -> (normalizer: Self)
        ensures
            normalizer.wf(),
            normalizer.model() == NormalizerModel::fresh(default_repeat()),
    {
        InputNormalizer::new(KeyRepeatConfig::default())
    }
}

fn same_option(a: &Option<String>, b: &Option<String>) -> (yes: bool)
    ensures
        yes == (option_view(*a) == option_view(*b)),
{
    match (a, b) {
        (Some(x), Some(y)) => same(x.as_str(), y.as_str()),
        (None, None) => true,
        _ => false,
    }
}

/// An error raised before a native input source can be installed.
#[derive(Debug, Clone, PartialEq, Eq)]
pub struct NativeInputError {
    message: String,
}

impl NativeInputError {
    pub closed spec fn text(&self) -> Seq<char> {
        self.message@
    }

    pub fn new(message: String) -> (error: Self)
        ensures
            error.text() == message@,
    {
        NativeInputError { message }
    }

    pub fn message(&self) -> (message: &str)
        ensures
            message@ == self.text(),
    {
        self.message.as_str()
    }
}

/// A pause or a resume of the session.
#[derive(Debug, Clone, Copy, PartialEq, Eq, Structural)]
pub enum SessionSignal {
    PauseSession,
    ActivateSession,
}

/// The seat behind a native input source: its name, and the normalizer that
/// the events of its devices go through.
#[derive(Debug, Clone)]
pub struct LibinputSeatSource {
    normalizer: InputNormalizer,
    seat_name: String,
}

impl LibinputSeatSource {
    pub closed spec fn seat(&self) -> Seq<char> {
        self.seat_name@
    }

    pub closed spec fn model(&self) -> NormalizerModel {
        self.normalizer.model()
    }

    pub closed spec fn wf(&self) -> bool {
        self.normalizer.wf()
    }

    /// A source for a seat, with the default key-repeat policy.
    pub fn new(seat: String) -> (source: Self)
        ensures
            source.wf(),
            source.seat() == seat@,
            source.model() == NormalizerModel::fresh(default_repeat()),
    {
        LibinputSeatSource { normalizer: InputNormalizer::default(), seat_name: seat }
    }

    /// The name of the seat.
    pub fn seat_name(&self) -> (name: &str)
        ensures
            name@ == self.seat(),
    {
        self.seat_name.as_str()
    }

    /// The normalizer, for its focus and its grab.
    pub fn normalizer(&self) -> (normalizer: &InputNormalizer)
        ensures
            normalizer.model() == self.model(),
            normalizer.wf() == self.wf(),
    {
        &self.normalizer
    }

    /// Normalizes an event of one of the seat's devices.
    pub fn normalize_native_event(&mut self, event: RawInputEvent) -> (events: Vec<
        NormalizedInputEvent,
    >)
        requires
            old(self).wf(),
        ensures
            final(self).wf(),
            final(self).seat() == old(self).seat(),
            final(self).model() == old(self).model().after(event),
            event_views(events@) == old(self).model().events(event),
    {
        self.normalizer.normalize_native_event(event)
    }

    /// Forwards a pause or a resume of the session.
    pub fn session_event(&mut self, event: SessionSignal) -> (events: Vec<NormalizedInputEvent>)
        requires
            old(self).wf(),
        ensures
            final(self).wf(),
            final(self).seat() == old(self).seat(),
            final(self).model() == old(self).model().seated(
                event == SessionSignal::ActivateSession,
            ),
            event_views(events@) == old(self).model().seat_events(
                event == SessionSignal::ActivateSession,
                GrabCancelReason::SeatPaused,
            ),
    {
        match event {
            SessionSignal::PauseSession => self.normalizer.set_seat_active(
                false,
                GrabCancelReason::SeatPaused,
            ),
            SessionSignal::ActivateSession => self.normalizer.set_seat_active(
                true,
                GrabCancelReason::SeatPaused,
            ),
        }
    }

    /// Forwards the loss of the host's focus.
    pub fn host_deactivated(&mut self) -> (events: Vec<NormalizedInputEvent>)
        requires
            old(self).wf(),
        ensures
            final(self).wf(),
            final(self).seat() == old(self).seat(),
            final(self).model() == old(self).model().seated(false),
            event_views(events@) == old(self).model().seat_events(
                false,
                GrabCancelReason::HostDeactivated,
            ),
    {
        self.normalizer.set_seat_active(false, GrabCancelReason::HostDeactivated)
    }
}

// ---- laws ------------------------------------------------------------------------

/// The timestamp of a normalized event, where it has one.
pub open spec fn event_time(event: EventModel) -> Option<u64> {
    match event {
        EventModel::Keyboard(key) => Some(key.time_us),
        EventModel::PointerMotion { time_us, .. } => Some(time_us),
        EventModel::PointerMotionAbsolute { time_us, .. } => Some(time_us),
        EventModel::PointerButton { time_us, .. } => Some(time_us),
        EventModel::PointerAxis { time_us, .. } => Some(time_us),
        EventModel::GestureSwipe { time_us, .. } => Some(time_us),
        EventModel::GesturePinch { time_us, .. } => Some(time_us),
        EventModel::GestureHold { time_us, .. } => Some(time_us),
        EventModel::Touch { time_us, .. } => Some(time_us),
        _ => None,
    }
}

/// Whether the timestamps of `events` ascend from `from` to `to`.
pub open spec fn ascends(events: Seq<EventModel>, from: u64, to: u64) -> bool {
    &&& from <= to
    &&& forall|i: int|
        0 <= i < events.len() ==> (event_time(#[trigger] events[i]) matches Some(time) ==> from
            <= time <= to)
    &&& forall|i: int, j: int|
        0 <= i <= j < events.len() ==> match (
            event_time(#[trigger] events[i]),
            event_time(#[trigger] events[j]),
        ) {
            (Some(a), Some(b)) => a <= b,
            _ => true,
        }
}

proof fn clocked_ascends(last: u64, keys: Seq<KeyModel>)
    ensures
        ascends(clocked(last, keys), last, clock_after(last, keys)),
        clocked(last, keys).len() == keys.len(),
    decreases keys.len(),
{
    if keys.len() > 0 {
        clocked_ascends(last, keys.drop_last());
    }
}

proof fn one_event_ascends(event: EventModel, from: u64, to: u64)
    requires
        from <= to,
        event_time(event) matches Some(time) ==> from <= time <= to,
    ensures
        ascends(seq![event], from, to),
{
}

proof fn a_timed_event_counts_at_its_time(normalizer: NormalizerModel, event: RawInputEvent)
    requires
        !(event is DeviceAdded),
        !(event is DeviceRemoved),
        !(event is Keyboard),
        !(event is Other),
    ensures
        normalizer.events(event).len() == 1,
        event_time(normalizer.events(event)[0]) == Some(normalizer.time(raw_time(event))),
        normalizer.after(event).last_time_us == normalizer.time(raw_time(event)),
{
}

proof fn a_device_event_has_no_time(normalizer: NormalizerModel, event: RawInputEvent)
    requires
        event is DeviceAdded || event is DeviceRemoved || event is Other,
    ensures
        forall|i: int|
            0 <= i < normalizer.events(event).len() ==> event_time(
                #[trigger] normalizer.events(event)[i],
            ) is None,
        normalizer.after(event).last_time_us == normalizer.last_time_us,
{
}

proof fn untimed_events_ascend(events: Seq<EventModel>, time: u64)
    requires
        forall|i: int| 0 <= i < events.len() ==> event_time(#[trigger] events[i]) is None,
    ensures
        ascends(events, time, time),
{
}

/// Timestamps never go back: the events of one backend event ascend, from the
/// last time given out to the new one.
pub proof fn timestamps_never_go_back(normalizer: NormalizerModel, event: RawInputEvent)
    ensures
        ascends(
            normalizer.events(event),
            normalizer.last_time_us,
            normalizer.after(event).last_time_us,
        ),
{
    if event is Keyboard {
        clocked_ascends(normalizer.last_time_us, normalizer.sample_keys(event->Keyboard_0));
    } else if event is DeviceAdded || event is DeviceRemoved || event is Other {
        a_device_event_has_no_time(normalizer, event);
        untimed_events_ascend(normalizer.events(event), normalizer.last_time_us);
    } else {
        a_timed_event_counts_at_its_time(normalizer, event);
        let told = normalizer.events(event);
        assert(told =~= seq![told[0]]);
        one_event_ascends(
            told[0],
            normalizer.last_time_us,
            normalizer.after(event).last_time_us,
        );
    }
}

/// Key repeats are on the same clock.
pub proof fn repeats_ascend(normalizer: NormalizerModel, now_ms: u64)
    ensures
        ascends(
            clocked(normalizer.last_time_us, normalizer.repeat.due_events(now_ms)),
            normalizer.last_time_us,
            normalizer.after_repeat(now_ms).last_time_us,
        ),
{
    clocked_ascends(normalizer.last_time_us, normalizer.repeat.due_events(now_ms));
}

/// When focus is lost while a grab is active, the grab is released, and that
/// is told before the focus change.
pub proof fn focus_loss_releases_the_grab_first(
    normalizer: NormalizerModel,
    token: u64,
    output: Option<Seq<char>>,
    surface: Option<Seq<char>>,
)
    requires
        normalizer.active_grab == Some(token),
        output is None || surface is None,
        output != normalizer.focus.output || surface != normalizer.focus.surface,
    ensures
        normalizer.focused(output, surface).active_grab is None,
        normalizer.focus_events(output, surface) == seq![
            EventModel::GrabCancelled { token, reason: GrabCancelReason::FocusLost },
            EventModel::FocusChanged { output, surface, active: normalizer.focus.active },
        ],
{
    assert(normalizer.focus_events(output, surface) =~= seq![
        EventModel::GrabCancelled { token, reason: GrabCancelReason::FocusLost },
        EventModel::FocusChanged { output, surface, active: normalizer.focus.active },
    ]);
}

/// A seat that becomes inactive keeps no focus, no grab and no repeating key,
/// and the grab is released before the focus change is told.
pub proof fn an_inactive_seat_keeps_nothing(
    normalizer: NormalizerModel,
    reason: GrabCancelReason,
    now_ms: u64,
)
    requires
        normalizer.focus.active,
    ensures
        normalizer.seated(false).focus == no_focus(),
        normalizer.seated(false).active_grab is None,
        normalizer.seated(false).repeat.due_events(now_ms) == Seq::<KeyModel>::empty(),
        normalizer.seat_events(false, reason) == normalizer.release(reason) + seq![
            EventModel::FocusChanged { output: None, surface: None, active: false },
        ],
{
    assert(normalizer.seated(false).repeat.due_events(now_ms) =~= Seq::empty());
    assert(normalizer.seat_events(false, reason) =~= normalizer.release(reason) + seq![
        EventModel::FocusChanged { output: None, surface: None, active: false },
    ]);
}

/// A removed device is forgotten, and leaves neither a grab nor a repeating
/// key behind.
pub proof fn a_removed_device_leaves_nothing(
    normalizer: NormalizerModel,
    device: Seq<char>,
    now_ms: u64,
)
    ensures
        known_kind(normalizer.without_device(device).devices, device) == DeviceKind::Unknown,
        normalizer.without_device(device).active_grab is None,
        normalizer.without_device(device).repeat.due_events(now_ms) == Seq::<KeyModel>::empty(),
{
    assert(normalizer.without_device(device).repeat.due_events(now_ms) =~= Seq::empty());
}

/// Whether a number of an event is finite and within the accepted range.
pub open spec fn is_sane(bits: u64) -> bool {
    finite(bits) && ordinal(MIN_RELATIVE_DELTA) <= ordinal(bits) <= ordinal(MAX_RELATIVE_DELTA)
}

/// Whether all numbers of an event are.
pub open spec fn numbers_are_sane(event: EventModel) -> bool {
    match event {
        EventModel::PointerMotion { dx, dy, unaccelerated_dx, unaccelerated_dy, .. } => is_sane(dx)
            && is_sane(dy) && is_sane(unaccelerated_dx) && is_sane(unaccelerated_dy),
        EventModel::PointerMotionAbsolute { x, y, .. } => is_sane(x) && is_sane(y),
        EventModel::PointerAxis { horizontal, vertical, horizontal_v120, vertical_v120, .. } => {
            &&& is_sane(horizontal)
            &&& is_sane(vertical)
            &&& horizontal_v120 matches Some(value) ==> is_sane(value)
            &&& vertical_v120 matches Some(value) ==> is_sane(value)
        },
        EventModel::GestureSwipe { dx, dy, .. } => is_sane(dx) && is_sane(dy),
        EventModel::GesturePinch { dx, dy, scale, rotation, .. } => is_sane(dx) && is_sane(dy)
            && is_sane(rotation) && is_sane(scale) && ordinal(scale) >= ordinal(MIN_PINCH_SCALE),
        EventModel::Touch { x, y, .. } => {
            &&& x matches Some(value) ==> is_sane(value)
            &&& y matches Some(value) ==> is_sane(value)
        },
        _ => true,
    }
}

proof fn sane_deltas_are_sane(bits: u64)
    ensures
        is_sane(sane_delta(bits)),
        is_sane(sane_pinch(bits)),
        ordinal(sane_pinch(bits)) >= ordinal(MIN_PINCH_SCALE),
{
}

proof fn key_events_hold_no_numbers(last: u64, keys: Seq<KeyModel>)
    ensures
        forall|i: int| 0 <= i < clocked(last, keys).len() ==> (#[trigger] clocked(last, keys)[i])
            is Keyboard,
    decreases keys.len(),
{
    if keys.len() > 0 {
        key_events_hold_no_numbers(last, keys.drop_last());
    }
}

/// Whatever a device reports, no normalized event holds an infinite number, a
/// NaN or one out of range.
pub proof fn malformed_numbers_are_discarded(normalizer: NormalizerModel, event: RawInputEvent, i: int)
    requires
        0 <= i < normalizer.events(event).len(),
    ensures
        numbers_are_sane(normalizer.events(event)[i]),
{
    match event {
        RawInputEvent::Keyboard(sample) => {
            key_events_hold_no_numbers(normalizer.last_time_us, normalizer.sample_keys(sample));
        },
        RawInputEvent::PointerMotion { dx, dy, unaccelerated_dx, unaccelerated_dy, .. } => {
            sane_deltas_are_sane(dx);
            sane_deltas_are_sane(dy);
            sane_deltas_are_sane(unaccelerated_dx);
            sane_deltas_are_sane(unaccelerated_dy);
        },
        RawInputEvent::PointerMotionAbsolute { x, y, .. } => {
            sane_deltas_are_sane(x);
            sane_deltas_are_sane(y);
        },
        RawInputEvent::PointerAxis { horizontal, vertical, horizontal_v120, vertical_v120, .. } => {
            sane_deltas_are_sane(0);
            match horizontal {
                Some(value) => sane_deltas_are_sane(value),
                None => {},
            }
            match vertical {
                Some(value) => sane_deltas_are_sane(value),
                None => {},
            }
            match horizontal_v120 {
                Some(value) => sane_deltas_are_sane(value),
                None => {},
            }
            match vertical_v120 {
                Some(value) => sane_deltas_are_sane(value),
                None => {},
            }
        },
        RawInputEvent::GestureSwipeUpdate { dx, dy, .. } => {
            sane_deltas_are_sane(dx);
            sane_deltas_are_sane(dy);
        },
        RawInputEvent::GesturePinchUpdate { dx, dy, scale, rotation, .. } => {
            sane_deltas_are_sane(dx);
            sane_deltas_are_sane(dy);
            sane_deltas_are_sane(sane_delta(scale));
            sane_deltas_are_sane(rotation);
        },
        RawInputEvent::TouchDown { x, y, .. } => {
            sane_deltas_are_sane(x);
            sane_deltas_are_sane(y);
        },
        RawInputEvent::TouchMotion { x, y, .. } => {
            sane_deltas_are_sane(x);
            sane_deltas_are_sane(y);
        },
        _ => {
            sane_deltas_are_sane(0);
            sane_deltas_are_sane(ONE);
        },
    }
}

/// Whether a number of the device came through as `told`: one within the
/// accepted range, from -8192 to 8192, as it is; a larger one as the limit of
/// its sign; an infinite one or NaN as zero. Numbers are bit patterns.
pub open spec fn comes_through(given: u64, told: u64) -> bool {
    let size = given % 0x8000_0000_0000_0000;
    if size >= 0x7ff0_0000_0000_0000 {
        told == 0
    } else if size <= 0x40c0_0000_0000_0000 {
        told == given
    } else if given < 0x8000_0000_0000_0000 {
        told == 0x40c0_0000_0000_0000
    } else {
        told == 0xc0c0_0000_0000_0000
    }
}

/// Whether a number that may be missing came through, or stayed missing.
pub open spec fn option_comes_through(given: Option<u64>, told: Option<u64>) -> bool {
    match (given, told) {
        (Some(a), Some(b)) => comes_through(a, b),
        (None, None) => true,
        _ => false,
    }
}

/// Whether an amount along an axis came through; a missing one is zero.
pub open spec fn amount_comes_through(given: Option<u64>, told: u64) -> bool {
    match given {
        Some(amount) => comes_through(amount, told),
        None => told == 0,
    }
}

/// Whether a pinch scale came through: one from 0.01 to 100 as it is, a larger
/// one as 100, and anything else as 0.01.
pub open spec fn scale_comes_through(given: u64, told: u64) -> bool {
    if 0x3f84_7ae1_47ae_147b <= given <= 0x4059_0000_0000_0000 {
        told == given
    } else if 0x4059_0000_0000_0000 < given < 0x7ff0_0000_0000_0000 {
        told == 0x4059_0000_0000_0000
    } else {
        told == 0x3f84_7ae1_47ae_147b
    }
}

/// Whether `told` is the time of a sample on a clock that stands at `last`: the
/// later of the two.
pub open spec fn is_on_clock(last: u64, given: u64, told: u64) -> bool {
    told >= last && told >= given && (told == last || told == given)
}

/// A delta within the accepted range is kept, and any other becomes the limit
/// of its sign, or zero where it is no finite number.
pub proof fn deltas_come_through(bits: u64)
    ensures
        comes_through(bits, sane_delta(bits)),
{
}

proof fn scales_come_through(bits: u64)
    ensures
        scale_comes_through(bits, sane_pinch(sane_delta(bits))),
{
}

/// Motion keeps its numbers, each in its own field: what comes out is one
/// motion of the same device, on the clock.
pub proof fn motions_come_through(
    normalizer: NormalizerModel,
    event: RawInputEvent,
    events: Seq<NormalizedInputEvent>,
)
    requires
        event_views(events) == normalizer.events(event),
    ensures
        event matches RawInputEvent::PointerMotion {
            time_us,
            dx,
            dy,
            unaccelerated_dx,
            unaccelerated_dy,
            device,
        } ==> events.len() == 1 && (events[0] matches NormalizedInputEvent::PointerMotion {
            time_us: told_time,
            dx: told_dx,
            dy: told_dy,
            unaccelerated_dx: told_udx,
            unaccelerated_dy: told_udy,
            device: told_device,
        } && {
            &&& is_on_clock(normalizer.last_time_us, time_us, told_time)
            &&& comes_through(dx, told_dx)
            &&& comes_through(dy, told_dy)
            &&& comes_through(unaccelerated_dx, told_udx)
            &&& comes_through(unaccelerated_dy, told_udy)
            &&& told_device@ == device@
        }),
        event matches RawInputEvent::PointerMotionAbsolute { time_us, x, y, device }
            ==> events.len() == 1 && (
        events[0] matches NormalizedInputEvent::PointerMotionAbsolute {
            time_us: told_time,
            x: told_x,
            y: told_y,
            device: told_device,
        } && {
            &&& is_on_clock(normalizer.last_time_us, time_us, told_time)
            &&& comes_through(x, told_x)
            &&& comes_through(y, told_y)
            &&& told_device@ == device@
        }),
{
    if event is PointerMotion || event is PointerMotionAbsolute {
        assert(event_views(events).len() == events.len());
        assert(event_views(events)[0] == events[0]@);
    }
}

/// Buttons and scrolling come through: a button with its number and state, and
/// each axis with its own amounts, those of the vertical one never on the
/// horizontal one. An axis without an amount does not scroll. The tilt of a
/// wheel is the wheel's.
pub proof fn buttons_and_axes_come_through(
    normalizer: NormalizerModel,
    event: RawInputEvent,
    events: Seq<NormalizedInputEvent>,
)
    requires
        event_views(events) == normalizer.events(event),
    ensures
        event matches RawInputEvent::PointerButton { time_us, button, pressed, device }
            ==> events.len() == 1 && (events[0] matches NormalizedInputEvent::PointerButton {
            time_us: told_time,
            button: told_button,
            pressed: told_pressed,
            device: told_device,
        } && {
            &&& is_on_clock(normalizer.last_time_us, time_us, told_time)
            &&& told_button == button
            &&& told_pressed == pressed
            &&& told_device@ == device@
        }),
        event matches RawInputEvent::PointerAxis {
            time_us,
            horizontal,
            vertical,
            horizontal_v120,
            vertical_v120,
            source,
            device,
        } ==> events.len() == 1 && (events[0] matches NormalizedInputEvent::PointerAxis {
            time_us: told_time,
            horizontal: told_horizontal,
            vertical: told_vertical,
            horizontal_v120: told_horizontal_v120,
            vertical_v120: told_vertical_v120,
            source: told_source,
            device: told_device,
        } && {
            &&& is_on_clock(normalizer.last_time_us, time_us, told_time)
            &&& amount_comes_through(horizontal, told_horizontal)
            &&& amount_comes_through(vertical, told_vertical)
            &&& option_comes_through(horizontal_v120, told_horizontal_v120)
            &&& option_comes_through(vertical_v120, told_vertical_v120)
            &&& told_source == AxisSource::Wheel <==> (source == RawAxisSource::Wheel || source
                == RawAxisSource::WheelTilt)
            &&& told_source == AxisSource::Finger <==> source == RawAxisSource::Finger
            &&& told_source == AxisSource::Continuous <==> source == RawAxisSource::Continuous
            &&& told_device@ == device@
        }),
{
    if event is PointerButton || event is PointerAxis {
        assert(event_views(events).len() == events.len());
        assert(event_views(events)[0] == events[0]@);
    }
}

/// Whether an event is a swipe of this phase that came through.
pub open spec fn is_swipe(
    event: NormalizedInputEvent,
    last: u64,
    time: u64,
    phase: GesturePhase,
    fingers: u32,
    dx: u64,
    dy: u64,
    device: Seq<char>,
) -> bool {
    event matches NormalizedInputEvent::GestureSwipe {
        time_us: told_time,
        phase: told_phase,
        fingers: told_fingers,
        dx: told_dx,
        dy: told_dy,
        device: told_device,
    } && {
        &&& is_on_clock(last, time, told_time)
        &&& told_phase == phase
        &&& told_fingers == fingers
        &&& comes_through(dx, told_dx)
        &&& comes_through(dy, told_dy)
        &&& told_device@ == device
    }
}

/// Whether an event is a pinch of this phase that came through.
pub open spec fn is_pinch(
    event: NormalizedInputEvent,
    last: u64,
    time: u64,
    phase: GesturePhase,
    fingers: u32,
    dx: u64,
    dy: u64,
    scale: u64,
    rotation: u64,
    device: Seq<char>,
) -> bool {
    event matches NormalizedInputEvent::GesturePinch {
        time_us: told_time,
        phase: told_phase,
        fingers: told_fingers,
        dx: told_dx,
        dy: told_dy,
        scale: told_scale,
        rotation: told_rotation,
        device: told_device,
    } && {
        &&& is_on_clock(last, time, told_time)
        &&& told_phase == phase
        &&& told_fingers == fingers
        &&& comes_through(dx, told_dx)
        &&& comes_through(dy, told_dy)
        &&& scale_comes_through(scale, told_scale)
        &&& comes_through(rotation, told_rotation)
        &&& told_device@ == device
    }
}

/// Whether an event is a hold of this phase that came through.
pub open spec fn is_hold(
    event: NormalizedInputEvent,
    last: u64,
    time: u64,
    phase: GesturePhase,
    fingers: u32,
    device: Seq<char>,
) -> bool {
    event matches NormalizedInputEvent::GestureHold {
        time_us: told_time,
        phase: told_phase,
        fingers: told_fingers,
        device: told_device,
    } && is_on_clock(last, time, told_time) && told_phase == phase && told_fingers == fingers
        && told_device@ == device
}

/// Swipes and holds come through with their phase, their fingers and, while
/// they last, their motion; one that begins or ends does not move.
pub proof fn swipes_and_holds_come_through(
    normalizer: NormalizerModel,
    event: RawInputEvent,
    events: Seq<NormalizedInputEvent>,
)
    requires
        event_views(events) == normalizer.events(event),
    ensures
        event matches RawInputEvent::GestureSwipeBegin { time_us, fingers, device } ==> events.len()
            == 1 && is_swipe(
            events[0],
            normalizer.last_time_us,
            time_us,
            GesturePhase::Begin,
            fingers,
            0,
            0,
            device@,
        ),
        event matches RawInputEvent::GestureSwipeUpdate { time_us, fingers, dx, dy, device }
            ==> events.len() == 1 && is_swipe(
            events[0],
            normalizer.last_time_us,
            time_us,
            GesturePhase::Update,
            fingers,
            dx,
            dy,
            device@,
        ),
        event matches RawInputEvent::GestureSwipeEnd { time_us, fingers, cancelled, device }
            ==> events.len() == 1 && is_swipe(
            events[0],
            normalizer.last_time_us,
            time_us,
            GesturePhase::End { cancelled },
            fingers,
            0,
            0,
            device@,
        ),
        event matches RawInputEvent::GestureHoldBegin { time_us, fingers, device } ==> events.len()
            == 1 && is_hold(
            events[0],
            normalizer.last_time_us,
            time_us,
            GesturePhase::Begin,
            fingers,
            device@,
        ),
        event matches RawInputEvent::GestureHoldEnd { time_us, fingers, cancelled, device }
            ==> events.len() == 1 && is_hold(
            events[0],
            normalizer.last_time_us,
            time_us,
            GesturePhase::End { cancelled },
            fingers,
            device@,
        ),
{
    if event is GestureSwipeBegin || event is GestureSwipeUpdate || event is GestureSwipeEnd
        || event is GestureHoldBegin || event is GestureHoldEnd {
        assert(event_views(events).len() == events.len());
        assert(event_views(events)[0] == events[0]@);
    }
}

/// Pinches come through with their phase, their fingers, their motion, scale
/// and rotation; one that begins or ends is of the size that it began with.
pub proof fn pinches_come_through(
    normalizer: NormalizerModel,
    event: RawInputEvent,
    events: Seq<NormalizedInputEvent>,
)
    requires
        event_views(events) == normalizer.events(event),
    ensures
        event matches RawInputEvent::GesturePinchBegin { time_us, fingers, device } ==> events.len()
            == 1 && is_pinch(
            events[0],
            normalizer.last_time_us,
            time_us,
            GesturePhase::Begin,
            fingers,
            0,
            0,
            0x3ff0_0000_0000_0000,
            0,
            device@,
        ),
        event matches RawInputEvent::GesturePinchUpdate {
            time_us,
            fingers,
            dx,
            dy,
            scale,
            rotation,
            device,
        } ==> events.len() == 1 && is_pinch(
            events[0],
            normalizer.last_time_us,
            time_us,
            GesturePhase::Update,
            fingers,
            dx,
            dy,
            scale,
            rotation,
            device@,
        ),
        event matches RawInputEvent::GesturePinchEnd { time_us, fingers, cancelled, device }
            ==> events.len() == 1 && is_pinch(
            events[0],
            normalizer.last_time_us,
            time_us,
            GesturePhase::End { cancelled },
            fingers,
            0,
            0,
            0x3ff0_0000_0000_0000,
            0,
            device@,
        ),
{
    if event is GesturePinchBegin || event is GesturePinchUpdate || event is GesturePinchEnd {
        assert(event_views(events).len() == events.len());
        assert(event_views(events)[0] == events[0]@);
    }
    match event {
        RawInputEvent::GesturePinchUpdate { scale, .. } => scales_come_through(scale),
        _ => {},
    }
}

/// Whether an event is a touch of this phase that came through.
pub open spec fn is_touch(
    event: NormalizedInputEvent,
    last: u64,
    time: u64,
    phase: TouchPhase,
    slot: int,
    x: Option<u64>,
    y: Option<u64>,
    device: Seq<char>,
) -> bool {
    event matches NormalizedInputEvent::Touch {
        time_us: told_time,
        slot: told_slot,
        phase: told_phase,
        x: told_x,
        y: told_y,
        device: told_device,
    } && {
        &&& is_on_clock(last, time, told_time)
        &&& told_phase == phase
        &&& told_slot == slot
        &&& option_comes_through(x, told_x)
        &&& option_comes_through(y, told_y)
        &&& told_device@ == device
    }
}

/// Touches come through: a finger that appears or moves is where the device
/// says, in its own slot, and one that is lifted has no place; a frame is of no
/// finger.
pub proof fn touches_come_through(
    normalizer: NormalizerModel,
    event: RawInputEvent,
    events: Seq<NormalizedInputEvent>,
)
    requires
        event_views(events) == normalizer.events(event),
    ensures
        event matches RawInputEvent::TouchDown { time_us, slot, x, y, device } ==> events.len() == 1
            && is_touch(
            events[0],
            normalizer.last_time_us,
            time_us,
            TouchPhase::Down,
            slot as int,
            Some(x),
            Some(y),
            device@,
        ),
        event matches RawInputEvent::TouchMotion { time_us, slot, x, y, device } ==> events.len()
            == 1 && is_touch(
            events[0],
            normalizer.last_time_us,
            time_us,
            TouchPhase::Motion,
            slot as int,
            Some(x),
            Some(y),
            device@,
        ),
        event matches RawInputEvent::TouchUp { time_us, slot, device } ==> events.len() == 1
            && is_touch(
            events[0],
            normalizer.last_time_us,
            time_us,
            TouchPhase::Up,
            slot as int,
            None,
            None,
            device@,
        ),
        event matches RawInputEvent::TouchCancel { time_us, slot, device } ==> events.len() == 1
            && is_touch(
            events[0],
            normalizer.last_time_us,
            time_us,
            TouchPhase::Cancel,
            slot as int,
            None,
            None,
            device@,
        ),
        event matches RawInputEvent::TouchFrame { time_us, device } ==> events.len() == 1
            && is_touch(
            events[0],
            normalizer.last_time_us,
            time_us,
            TouchPhase::Frame,
            -1,
            None,
            None,
            device@,
        ),
{
    if event is TouchDown || event is TouchMotion || event is TouchUp || event is TouchCancel
        || event is TouchFrame {
        assert(event_views(events).len() == events.len());
        assert(event_views(events)[0] == events[0]@);
    }
}

/// A key comes through as one event of its own key, state and device, at the
/// latest of its own time and every time that was given out before.
pub proof fn keys_come_through(
    normalizer: NormalizerModel,
    sample: KeySample,
    events: Seq<NormalizedInputEvent>,
)
    requires
        event_views(events) == normalizer.events(RawInputEvent::Keyboard(sample)),
    ensures
        events.len() == 1,
        events[0] matches NormalizedInputEvent::Keyboard(key) && {
            &&& key.keycode == sample.keycode
            &&& key.device@ == sample.device@
            &&& key.state == crate::key_repeat::KeyDelivery::Pressed <==> sample.state
                == PhysicalKeyState::Pressed
            &&& key.state == crate::key_repeat::KeyDelivery::Released <==> sample.state
                == PhysicalKeyState::Released
            &&& key.time_us >= sample.time_us
            &&& key.time_us >= normalizer.last_time_us
            &&& key.time_us >= normalizer.repeat.last_event_us
            &&& normalizer.repeat.last_time_ms * 1_000 <= sample.time_us
                && normalizer.repeat.last_event_us <= sample.time_us && normalizer.last_time_us
                <= sample.time_us ==> key.time_us == sample.time_us
        },
{
    let keys = normalizer.sample_keys(sample);
    reveal_with_fuel(clocked, 2);
    reveal_with_fuel(clock_after, 2);
    assert(keys.drop_last() =~= Seq::empty());
    assert(event_views(events).len() == events.len());
    assert(event_views(events)[0] == events[0]@);
}

/// A device that appears is told by its own name and known from then on; one
/// that goes is told with the kind that it was known by, and the grab that was
/// active is released. A tablet or switch event tells nothing.
pub proof fn devices_come_and_go(
    normalizer: NormalizerModel,
    event: RawInputEvent,
    events: Seq<NormalizedInputEvent>,
)
    requires
        event_views(events) == normalizer.events(event),
    ensures
        event matches RawInputEvent::DeviceAdded { device, name, .. } ==> events.len() == 1 && (
        events[0] matches NormalizedInputEvent::DeviceAdded {
            device: told_device,
            name: told_name,
            kind,
        } && {
            &&& told_device@ == device@
            &&& told_name@ == name@
            &&& normalizer.after(event).devices == normalizer.devices.insert(device@, kind)
        }),
        event matches RawInputEvent::DeviceRemoved { device } ==> {
            &&& events.len() == (if normalizer.active_grab is Some {
                2int
            } else {
                1int
            })
            &&& events[0] matches NormalizedInputEvent::DeviceRemoved { device: told_device, kind }
                && told_device@ == device@ && (if normalizer.devices.contains_key(device@) {
                kind == normalizer.devices[device@]
            } else {
                kind == DeviceKind::Unknown
            })
            &&& normalizer.active_grab matches Some(token) ==> (
            events[1] matches NormalizedInputEvent::GrabCancelled { token: told, reason } && told
                == token && reason == GrabCancelReason::DeviceRemoved)
            &&& normalizer.after(event).devices == normalizer.devices.remove(device@)
            &&& normalizer.after(event).active_grab is None
        },
        event is Other ==> events.len() == 0 && normalizer.after(event) == normalizer,
{
    assert(event_views(events).len() == events.len());
    if event is DeviceAdded || event is DeviceRemoved {
        assert(event_views(events)[0] == events[0]@);
        if event is DeviceRemoved && normalizer.active_grab is Some {
            assert(event_views(events)[1] == events[1]@);
        }
    }
}

/// Motion, buttons, scrolling, gestures and touches move the clock and leave
/// everything else as it is: the focus, the grab, the devices and the key that
/// repeats. A key changes only what repeats.
pub proof fn only_keys_and_devices_change_the_state(normalizer: NormalizerModel, event: RawInputEvent)
    requires
        !(event is DeviceAdded) && !(event is DeviceRemoved),
    ensures
        normalizer.after(event).focus == normalizer.focus,
        normalizer.after(event).active_grab == normalizer.active_grab,
        normalizer.after(event).devices == normalizer.devices,
        !(event is Keyboard) ==> normalizer.after(event).repeat == normalizer.repeat,
        normalizer.after(event).last_time_us >= normalizer.last_time_us,
{
    if event is Keyboard {
        clocked_ascends(normalizer.last_time_us, normalizer.sample_keys(event->Keyboard_0));
    }
}

/// A change of focus is told once, with what it changed to, and sets it; the
/// focus that is there already is not told again. The grab stays while both
/// halves of the focus are there.
pub proof fn focus_changes_are_told_once(
    normalizer: NormalizerModel,
    output: Option<Seq<char>>,
    surface: Option<Seq<char>>,
)
    ensures
        normalizer.focused(output, surface).focus == (FocusModel {
            active: normalizer.focus.active,
            output,
            surface,
        }),
        normalizer.focused(output, surface).focus_events(output, surface).len() == 0,
        (output != normalizer.focus.output || surface != normalizer.focus.surface) ==> {
            &&& normalizer.focus_events(output, surface).len() > 0
            &&& normalizer.focus_events(output, surface).last() == (EventModel::FocusChanged {
                output,
                surface,
                active: normalizer.focus.active,
            })
        },
        output is Some && surface is Some ==> normalizer.focused(output, surface).active_grab
            == normalizer.active_grab,
        normalizer.focused(output, surface).repeat == normalizer.repeat,
        normalizer.focused(output, surface).devices == normalizer.devices,
{
}

/// A seat that becomes active keeps its focus and its grab, tells that it is
/// active, and starts without a repeating key; one that is told what it is
/// already changes nothing.
pub proof fn an_active_seat_keeps_its_focus(normalizer: NormalizerModel, reason: GrabCancelReason)
    ensures
        normalizer.seated(true).focus.active,
        !normalizer.seated(false).focus.active,
        normalizer.seated(true).focus.output == normalizer.focus.output,
        normalizer.seated(true).focus.surface == normalizer.focus.surface,
        normalizer.seated(true).active_grab == normalizer.active_grab,
        normalizer.seated(normalizer.focus.active) == normalizer,
        normalizer.seat_events(normalizer.focus.active, reason).len() == 0,
        !normalizer.focus.active ==> {
            &&& normalizer.seated(true).repeat.held is None
            &&& normalizer.seat_events(true, reason) == seq![
                EventModel::FocusChanged {
                    output: normalizer.focus.output,
                    surface: normalizer.focus.surface,
                    active: true,
                },
            ]
        },
        normalizer.seated(false).devices == normalizer.devices,
        normalizer.seated(false).last_time_us == normalizer.last_time_us,
{
}

/// A grab that is asked for holds, unless its token is zero, which changes
/// nothing; the grab before it is told to be cancelled, once and as replaced.
/// Nothing else of the state changes.
pub proof fn grabs_replace_each_other(normalizer: NormalizerModel, token: u64, other: u64)
    requires
        token != 0,
    ensures
        normalizer.granted(token).active_grab == Some(token),
        normalizer.granted(0) == normalizer && normalizer.grant_events(0).len() == 0,
        normalizer.active_grab is None ==> normalizer.grant_events(token).len() == 0,
        normalizer.granted(token).granted(other).active_grab == (if other == 0 {
            Some(token)
        } else {
            Some(other)
        }),
        other != 0 ==> normalizer.granted(token).grant_events(other) == seq![
            EventModel::GrabCancelled { token, reason: GrabCancelReason::Replaced },
        ],
        normalizer.granted(token).focus == normalizer.focus && normalizer.granted(token).repeat
            == normalizer.repeat && normalizer.granted(token).devices == normalizer.devices
            && normalizer.granted(token).last_time_us == normalizer.last_time_us,
{
}

/// A normalizer starts with its clock at zero, without an active focus, and knows
/// no device, no grab and no held key.
pub proof fn normalizers_start_with_nothing(config: KeyRepeatConfig, device: Seq<char>)
    ensures
        ({
            let fresh = NormalizerModel::fresh(config);
            &&& fresh.last_time_us == 0
            &&& fresh.active_grab is None && fresh.repeat.held is None
            &&& !fresh.devices.contains_key(device)
            &&& !fresh.focus.active && fresh.focus.output is None && fresh.focus.surface is None
            &&& fresh.repeat.config == config.limited()
        }),
{
}

} // verus!
