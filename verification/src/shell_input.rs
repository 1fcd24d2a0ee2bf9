//! What normalized input does at the seat.

use crate::binary64::{finite, is_finite, is_nan, is_negative, negative, not_a_number, round_to_i32, rounded, unsigned};
use crate::input::{AxisSource, NormalizedInputEvent};
use crate::key_repeat::KeyDelivery;
use crate::num::saturated;
use vstd::prelude::*;

verus! {

/// A scroll event, of which only the axes that moved count. The values are
/// binary64 bit patterns; the high-resolution steps are whole numbers.
#[derive(Debug, Clone, Copy, PartialEq, Eq, Structural)]
pub struct AxisStep {
    pub time_ms: u32,
    pub source: AxisSource,
    pub horizontal: Option<u64>,
    pub vertical: Option<u64>,
    pub horizontal_v120: Option<i32>,
    pub vertical_v120: Option<i32>,
}

/// What an event does at the seat.
#[derive(Debug, Clone, Copy, PartialEq, Eq, Structural)]
pub enum SeatAction {
    Key { keycode: u32, pressed: bool, time_ms: u32 },
    /// The pointer moves by this much, within the output.
    MoveBy { dx: u64, dy: u64, time_ms: u32 },
    MoveTo { x: u64, y: u64, time_ms: u32 },
    Button { button: u32, pressed: bool, time_ms: u32 },
    Scroll(AxisStep),
    /// Presses and the drag are forgotten.
    Reset,
    /// As above, and the keyboard focus is cleared unless a grab holds it.
    Release,
    Nothing,
}

/// Microseconds in milliseconds, as far as 32 bits go.
pub open spec fn milliseconds(time_us: u64) -> u32 {
    if time_us as int / 1000 <= u32::MAX {
        (time_us as int / 1000) as u32
    } else {
        u32::MAX
    }
}

fn to_milliseconds(time_us: u64) -> (time_ms: u32)
    ensures
        time_ms == milliseconds(time_us),
{
    let time: u64 = time_us / 1000;
    if time <= u32::MAX as u64 {
        time as u32
    } else {
        u32::MAX
    }
}

/// A binary64 number as the nearest whole number of 32 bits; what is no
/// number counts as zero.
pub open spec fn whole_steps(bits: u64) -> i32 {
    if not_a_number(bits) {
        0
    } else if finite(bits) {
        saturated(rounded(bits)) as i32
    } else if negative(bits) {
        i32::MIN
    } else {
        i32::MAX
    }
}

fn to_whole_steps(bits: u64) -> (steps: i32)
    ensures
        steps == whole_steps(bits),
{
    if is_nan(bits) {
        0
    } else if is_finite(bits) {
        round_to_i32(bits)
    } else if is_negative(bits) {
        i32::MIN
    } else {
        i32::MAX
    }
}

/// An axis that moved.
pub open spec fn moved(bits: u64) -> Option<u64> {
    if unsigned(bits) == 0 {
        None
    } else {
        Some(bits)
    }
}

fn to_moved(bits: u64) -> (value: Option<u64>)
    ensures
        value == moved(bits),
{
    if bits == 0 || bits == 0x8000_0000_0000_0000 {
        None
    } else {
        Some(bits)
    }
}

pub open spec fn steps_of(value: Option<u64>) -> Option<i32> {
    match value {
        Some(bits) => Some(whole_steps(bits)),
        None => None,
    }
}

fn to_steps(value: Option<u64>) -> (steps: Option<i32>)
    ensures
        steps == steps_of(value),
{
    match value {
        Some(bits) => Some(to_whole_steps(bits)),
        None => None,
    }
}

pub open spec fn source_of(source: AxisSource) -> AxisSource {
    match source {
        AxisSource::Unknown => AxisSource::Continuous,
        _ => source,
    }
}

/// What a normalized event does. Gestures and touches are not handled yet;
/// coordinates that are no numbers are dropped.
pub open spec fn seat_action(event: NormalizedInputEvent) -> SeatAction {
    match event {
        NormalizedInputEvent::Keyboard(key) => SeatAction::Key {
            keycode: key.keycode,
            pressed: key.state != KeyDelivery::Released,
            time_ms: milliseconds(key.time_us),
        },
        NormalizedInputEvent::PointerMotion {
            time_us,
            dx,
            dy,
            unaccelerated_dx,
            unaccelerated_dy,
            device,
        } => SeatAction::MoveBy { dx, dy, time_ms: milliseconds(time_us) },
        NormalizedInputEvent::PointerButton { time_us, button, pressed, device } => SeatAction::Button {
            button,
            pressed,
            time_ms: milliseconds(time_us),
        },
        NormalizedInputEvent::PointerMotionAbsolute { time_us, x, y, device } => if finite(x)
            && finite(y) {
            SeatAction::MoveTo { x, y, time_ms: milliseconds(time_us) }
        } else {
            SeatAction::Nothing
        },
        NormalizedInputEvent::PointerAxis {
            time_us,
            horizontal,
            vertical,
            horizontal_v120,
            vertical_v120,
            source,
            device,
        } => SeatAction::Scroll(
            AxisStep {
                time_ms: milliseconds(time_us),
                source: source_of(source),
                horizontal: moved(horizontal),
                vertical: moved(vertical),
                horizontal_v120: steps_of(horizontal_v120),
                vertical_v120: steps_of(vertical_v120),
            },
        ),
        NormalizedInputEvent::DeviceRemoved { device, kind } => SeatAction::Reset,
        NormalizedInputEvent::GrabCancelled { token, reason } => SeatAction::Reset,
        NormalizedInputEvent::FocusChanged { output, surface, active } => if active {
            SeatAction::Nothing
        } else {
            SeatAction::Release
        },
        _ => SeatAction::Nothing,
    }
}

/// Resolves a normalized event.
pub fn process_normalized_input_event(event: &NormalizedInputEvent) -> (action: SeatAction)
    ensures
        action == seat_action(*event),
{
    match event {
        NormalizedInputEvent::Keyboard(key) => SeatAction::Key {
            keycode: key.keycode,
            pressed: match key.state {
                KeyDelivery::Released => false,
                KeyDelivery::Pressed | KeyDelivery::Repeat => true,
            },
            time_ms: to_milliseconds(key.time_us),
        },
        NormalizedInputEvent::PointerMotion {
            time_us,
            dx,
            dy,
            unaccelerated_dx,
            unaccelerated_dy,
            device,
        } => SeatAction::MoveBy { dx: *dx, dy: *dy, time_ms: to_milliseconds(*time_us) },
        NormalizedInputEvent::PointerButton { time_us, button, pressed, device } => SeatAction::Button {
            button: *button,
            pressed: *pressed,
            time_ms: to_milliseconds(*time_us),
        },
        NormalizedInputEvent::PointerMotionAbsolute { time_us, x, y, device } => if is_finite(*x)
            && is_finite(*y) {
            SeatAction::MoveTo { x: *x, y: *y, time_ms: to_milliseconds(*time_us) }
        } else {
            SeatAction::Nothing
        },
        NormalizedInputEvent::PointerAxis {
            time_us,
            horizontal,
            vertical,
            horizontal_v120,
            vertical_v120,
            source,
            device,
        } => SeatAction::Scroll(
            AxisStep {
                time_ms: to_milliseconds(*time_us),
                source: match source {
                    AxisSource::Wheel => AxisSource::Wheel,
                    AxisSource::Finger => AxisSource::Finger,
                    AxisSource::Continuous | AxisSource::Unknown => AxisSource::Continuous,
                },
                horizontal: to_moved(*horizontal),
                vertical: to_moved(*vertical),
                horizontal_v120: to_steps(*horizontal_v120),
                vertical_v120: to_steps(*vertical_v120),
            },
        ),
        NormalizedInputEvent::DeviceRemoved { device, kind } => SeatAction::Reset,
        NormalizedInputEvent::GrabCancelled { token, reason } => SeatAction::Reset,
        NormalizedInputEvent::FocusChanged { output, surface, active } => if *active {
            SeatAction::Nothing
        } else {
            SeatAction::Release
        },
        NormalizedInputEvent::DeviceAdded { device, name, kind } => SeatAction::Nothing,
        NormalizedInputEvent::GestureSwipe { time_us, phase, fingers, dx, dy, device } => SeatAction::Nothing,
        NormalizedInputEvent::GesturePinch {
            time_us,
            phase,
            fingers,
            dx,
            dy,
            scale,
            rotation,
            device,
        } => SeatAction::Nothing,
        NormalizedInputEvent::GestureHold { time_us, phase, fingers, device } => SeatAction::Nothing,
        NormalizedInputEvent::Touch { time_us, slot, phase, x, y, device } => SeatAction::Nothing,
    }
}

/// The farthest whole coordinate that relative motion takes the pointer to.
pub fn pointer_limit(length: i32) -> (limit: i32)
    ensures
        limit == (if length >= 1 {
            length - 1
        } else {
            0
        }),
{
    if length >= 1 {
        length - 1
    } else {
        0
    }
}

/// Whether an event counts as activity of the user.
pub fn notes_activity(action: &SeatAction) -> (yes: bool)
    ensures
        yes == (*action is MoveBy || *action is MoveTo || *action is Button),
{
    match action {
        SeatAction::MoveBy { dx, dy, time_ms } => true,
        SeatAction::MoveTo { x, y, time_ms } => true,
        SeatAction::Button { button, pressed, time_ms } => true,
        _ => false,
    }
}

// ---- laws ------------------------------------------------------------------------------

/// A coordinate that is infinite or no number never moves the pointer.
pub proof fn bad_coordinates_are_dropped(event: NormalizedInputEvent)
    ensures
        seat_action(event) matches SeatAction::MoveTo { x, y, time_ms } ==> finite(x) && finite(y),
{
}

/// Losing the focus, a device or a grab leaves no press behind.
pub proof fn losses_release_presses(event: NormalizedInputEvent)
    requires
        event is DeviceRemoved || event is GrabCancelled || (event is FocusChanged
            && !event->FocusChanged_active),
    ensures
        seat_action(event) == SeatAction::Reset || seat_action(event) == SeatAction::Release,
{
}

/// What happens at the seat: a key is down until it is released, a motion moves
/// by its own amounts and to its own point, a button is pressed or released as
/// it was, all with their own time in milliseconds.
pub proof fn events_arrive_as_they_are(event: NormalizedInputEvent)
    ensures
        event matches NormalizedInputEvent::Keyboard(key) ==> (
        seat_action(event) matches SeatAction::Key { keycode, pressed, time_ms } && keycode
            == key.keycode && (pressed <==> key.state != KeyDelivery::Released) && time_ms
            == milliseconds(key.time_us)),
        event matches NormalizedInputEvent::PointerMotion {
            time_us,
            dx,
            dy,
            unaccelerated_dx,
            unaccelerated_dy,
            device,
        } ==> seat_action(event) == (SeatAction::MoveBy { dx, dy, time_ms: milliseconds(time_us) }),
        event matches NormalizedInputEvent::PointerMotionAbsolute { time_us, x, y, device } ==> {
            let there = SeatAction::MoveTo { x, y, time_ms: milliseconds(time_us) };
            &&& finite(x) && finite(y) ==> seat_action(event) == there
            &&& !finite(x) || !finite(y) ==> seat_action(event) == SeatAction::Nothing
        },
        event matches NormalizedInputEvent::PointerButton { time_us, button, pressed, device }
            ==> seat_action(event) == (SeatAction::Button {
            button,
            pressed,
            time_ms: milliseconds(time_us),
        }),
{
}

/// What a scroll does at the seat: each axis has its own amount where it moved
/// and none where it did not, its own fine steps, and the event its own source,
/// where an unknown one counts as continuous.
pub proof fn scrolls_arrive_as_they_are(event: NormalizedInputEvent)
    ensures
        event matches NormalizedInputEvent::PointerAxis {
            time_us,
            horizontal,
            vertical,
            horizontal_v120,
            vertical_v120,
            source,
            device,
        } ==> (seat_action(event) matches SeatAction::Scroll(step) && {
            &&& step.time_ms == milliseconds(time_us)
            &&& horizontal == 0 || horizontal == 0x8000_0000_0000_0000 ==> step.horizontal is None
            &&& vertical == 0 || vertical == 0x8000_0000_0000_0000 ==> step.vertical is None
            &&& horizontal != 0 && horizontal != 0x8000_0000_0000_0000 ==> step.horizontal == Some(
                horizontal,
            )
            &&& vertical != 0 && vertical != 0x8000_0000_0000_0000 ==> step.vertical == Some(
                vertical,
            )
            &&& step.horizontal_v120 is Some <==> horizontal_v120 is Some
            &&& step.vertical_v120 is Some <==> vertical_v120 is Some
            &&& horizontal_v120 matches Some(bits) ==> step.horizontal_v120 == Some(
                whole_steps(bits),
            )
            &&& vertical_v120 matches Some(bits) ==> step.vertical_v120 == Some(whole_steps(bits))
            &&& source == AxisSource::Unknown ==> step.source == AxisSource::Continuous
            &&& source != AxisSource::Unknown ==> step.source == source
        }),
{
}

/// Which events change the seat otherwise: a device that goes and a grab that is
/// cancelled forget the presses, a focus that was lost is released, and whatever
/// else there is does nothing.
pub proof fn other_events_do_this(event: NormalizedInputEvent)
    ensures
        seat_action(event) == SeatAction::Reset <==> event is DeviceRemoved
            || event is GrabCancelled,
        seat_action(event) == SeatAction::Release <==> event is FocusChanged
            && !event->FocusChanged_active,
        seat_action(event) is Key <==> event is Keyboard,
        seat_action(event) is MoveBy <==> event is PointerMotion,
        seat_action(event) is Button <==> event is PointerButton,
        seat_action(event) is Scroll <==> event is PointerAxis,
{
}

/// Times are whole milliseconds, and stay at the largest of 32 bits.
pub proof fn times_are_milliseconds(time_us: u64)
    ensures
        time_us < 4_294_967_296_000 ==> milliseconds(time_us) * 1000 <= time_us && time_us < (
        milliseconds(time_us) + 1) * 1000,
        time_us >= 4_294_967_295_000 ==> milliseconds(time_us) == 4_294_967_295,
{
}

/// Steps are the nearest whole number, within 32 bits: infinite ones are the
/// extremes, and what is no number counts as zero.
pub proof fn steps_are_within_their_range(bits: u64)
    ensures
        finite(bits) && i32::MIN <= rounded(bits) <= i32::MAX ==> whole_steps(bits) == rounded(bits),
        finite(bits) && rounded(bits) > i32::MAX ==> whole_steps(bits) == i32::MAX,
        finite(bits) && rounded(bits) < i32::MIN ==> whole_steps(bits) == i32::MIN,
        not_a_number(bits) ==> whole_steps(bits) == 0,
        !finite(bits) && !not_a_number(bits) && negative(bits) ==> whole_steps(bits) == i32::MIN,
        !finite(bits) && !not_a_number(bits) && !negative(bits) ==> whole_steps(bits) == i32::MAX,
{
}

} // verus!
