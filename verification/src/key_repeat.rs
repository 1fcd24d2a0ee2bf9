//! Compositor-owned key repeat: bounded, and on a clock that never runs back.

use crate::num::{larger, smaller};
use crate::text::same;
use vstd::prelude::*;
use vstd::string::*;

verus! {

/// Initial delay before a held key begins repeating.
pub const DEFAULT_REPEAT_DELAY_MS: u64 = 400;

/// Default repeat cadence, close to 30 events per second.
pub const DEFAULT_REPEAT_INTERVAL_MS: u64 = 33;

/// Maximum number of synthetic repeat events emitted by one timer tick.
///
/// The cap keeps a slow machine from spending an entire frame replaying an old
/// key queue after it wakes from a compositor stall.
pub const DEFAULT_REPEAT_BURST: u8 = 4;

/// The press or release state of a physical key.
#[derive(Debug, Clone, Copy, PartialEq, Eq, Hash, Structural)]
pub enum PhysicalKeyState {
    /// The key went down.
    Pressed,
    /// The key went up.
    Released,
}

/// The state delivered to the compositor after key-repeat normalization.
#[derive(Debug, Clone, Copy, PartialEq, Eq, Hash, Structural)]
pub enum KeyDelivery {
    /// A physical press.
    Pressed,
    /// A physical release.
    Released,
    /// A synthetic repeat generated by the compositor timer.
    Repeat,
}

/// A key sample as a backend reports it.
#[derive(Debug, Clone, PartialEq, Eq)]
pub struct KeySample {
    /// Event timestamp in microseconds, with an arbitrary backend epoch.
    pub time_us: u64,
    /// Linux keycode.
    pub keycode: u32,
    /// Physical state.
    pub state: PhysicalKeyState,
    /// Device which generated the sample.
    pub device: String,
}

/// A normalized keyboard event.
#[derive(Debug, Clone, PartialEq, Eq)]
pub struct KeyEvent {
    /// Monotonic timestamp in microseconds.
    pub time_us: u64,
    /// Linux keycode.
    pub keycode: u32,
    /// Delivery state after repeat handling.
    pub state: KeyDelivery,
    /// Device which generated the event, or the held key's device for repeat.
    pub device: String,
}

#[verifier::ext_equal]
pub struct KeyModel {
    pub time_us: u64,
    pub keycode: u32,
    pub state: KeyDelivery,
    pub device: Seq<char>,
}

impl View for KeyEvent {
    type V = KeyModel;

    open spec fn view(&self) -> KeyModel {
        KeyModel {
            time_us: self.time_us,
            keycode: self.keycode,
            state: self.state,
            device: self.device@,
        }
    }
}

pub open spec fn key_views(list: Seq<KeyEvent>) -> Seq<KeyModel> {
    Seq::new(list.len(), |i: int| list[i]@)
}

/// Configuration for compositor-owned key repeat.
#[derive(Debug, Clone, Copy, PartialEq, Eq, Structural)]
pub struct KeyRepeatConfig {
    /// Delay before the first repeat, in milliseconds.
    pub delay_ms: u64,
    /// Interval between repeat events, in milliseconds.
    pub interval_ms: u64,
    /// Maximum repeats emitted by one timer tick.
    pub max_burst: u8,
}

pub open spec fn default_repeat() -> KeyRepeatConfig {
    KeyRepeatConfig {
        delay_ms: DEFAULT_REPEAT_DELAY_MS,
        interval_ms: DEFAULT_REPEAT_INTERVAL_MS,
        max_burst: DEFAULT_REPEAT_BURST,
    }
}

impl Default for KeyRepeatConfig {
    fn default() -> (config: Self)
        ensures
            config == default_repeat(),
    {
        KeyRepeatConfig {
            delay_ms: DEFAULT_REPEAT_DELAY_MS,
            interval_ms: DEFAULT_REPEAT_INTERVAL_MS,
            max_burst: DEFAULT_REPEAT_BURST,
        }
    }
}

impl KeyRepeatConfig {
    /// The configuration within the limits that keep repeating bounded.
    pub open spec fn limited(self) -> Self {
        KeyRepeatConfig {
            delay_ms: smaller(self.delay_ms as int, 60_000) as u64,
            interval_ms: smaller(larger(self.interval_ms as int, 1), 1_000) as u64,
            max_burst: smaller(larger(self.max_burst as int, 1), 32) as u8,
        }
    }

    pub fn sanitized(self) -> (config: Self)
        ensures
            config == self.limited(),
    {
        let delay_ms: u64 = if self.delay_ms <= 60_000 {
            self.delay_ms
        } else {
            60_000
        };
        let interval_ms: u64 = if self.interval_ms < 1 {
            1
        } else if self.interval_ms > 1_000 {
            1_000
        } else {
            self.interval_ms
        };
        let max_burst: u8 = if self.max_burst < 1 {
            1
        } else if self.max_burst > 32 {
            32
        } else {
            self.max_burst
        };
        KeyRepeatConfig { delay_ms, interval_ms, max_burst }
    }
}

#[derive(Debug, Clone, PartialEq, Eq)]
struct HeldKey {
    keycode: u32,
    device: String,
    next_repeat_ms: u64,
}

/// A bounded key-repeat state machine.
#[derive(Debug, Clone)]
pub struct KeyRepeater {
    config: KeyRepeatConfig,
    held: Option<HeldKey>,
    last_time_ms: u64,
    last_event_us: u64,
}

#[verifier::ext_equal]
pub struct HeldModel {
    pub keycode: u32,
    pub device: Seq<char>,
    pub next_repeat_ms: u64,
}

/// What a repeater holds: its limits, the key that repeats, the clock of its
/// timer and the time of the last key transition.
#[verifier::ext_equal]
pub struct RepeaterModel {
    pub config: KeyRepeatConfig,
    pub held: Option<HeldModel>,
    pub last_time_ms: u64,
    pub last_event_us: u64,
}

/// The 64-bit number closest to a natural number.
pub open spec fn capped(n: int) -> u64 {
    smaller(n, u64::MAX as int) as u64
}

fn capped_sum(a: u64, b: u64) -> (sum: u64)
    ensures
        sum == capped(a + b),
{
    a.saturating_add(b)
}

fn micros(ms: u64) -> (us: u64)
    ensures
        us == capped(ms * 1_000),
{
    if ms > 18_446_744_073_709_551 {
        u64::MAX
    } else {
        ms * 1_000
    }
}

fn later(a: u64, b: u64) -> (time: u64)
    ensures
        time == larger(a as int, b as int),
{
    if a >= b {
        a
    } else {
        b
    }
}

/// The times at which a key repeats, from `next` up to `now` and at most
/// `left` of them.
pub open spec fn repeat_times(next: u64, now: u64, interval: u64, left: nat) -> Seq<u64>
    decreases left,
{
    if left == 0 || next > now {
        Seq::empty()
    } else {
        seq![next] + repeat_times(capped(next + interval), now, interval, (left - 1) as nat)
    }
}

/// The time of the repeat that follows these.
pub open spec fn time_after(next: u64, now: u64, interval: u64, left: nat) -> u64
    decreases left,
{
    if left == 0 || next > now {
        next
    } else {
        time_after(capped(next + interval), now, interval, (left - 1) as nat)
    }
}

impl RepeaterModel {
    pub open spec fn wf(self) -> bool {
        self.config == self.config.limited()
    }

    pub open spec fn fresh(config: KeyRepeatConfig) -> Self {
        RepeaterModel { config: config.limited(), held: None, last_time_ms: 0, last_event_us: 0 }
    }

    /// The time at which a sample counts: never before the timer or an earlier
    /// transition.
    pub open spec fn event_time(self, time_us: u64) -> u64 {
        larger(
            larger(capped(self.last_time_ms * 1_000) as int, self.last_event_us as int),
            time_us as int,
        ) as u64
    }

    /// The state after a physical key transition. A new press supersedes the
    /// key that was held; a release ends the repeat of its own key only.
    pub open spec fn after_key(
        self,
        time_us: u64,
        keycode: u32,
        state: PhysicalKeyState,
        device: Seq<char>,
    ) -> Self {
        let time = self.event_time(time_us);
        RepeaterModel {
            held: match state {
                PhysicalKeyState::Pressed => Some(
                    HeldModel {
                        keycode,
                        device,
                        next_repeat_ms: capped(time / 1_000 + self.config.delay_ms),
                    },
                ),
                PhysicalKeyState::Released => match self.held {
                    Some(held) if held.keycode == keycode && held.device == device => None,
                    _ => self.held,
                },
            },
            last_time_ms: time / 1_000,
            last_event_us: time,
            ..self
        }
    }

    pub open spec fn now(self, now_ms: u64) -> u64 {
        larger(self.last_time_ms as int, now_ms as int) as u64
    }

    /// The times of the repeats that are due.
    pub open spec fn due(self, now_ms: u64) -> Seq<u64> {
        match self.held {
            Some(held) => repeat_times(
                held.next_repeat_ms,
                self.now(now_ms),
                self.config.interval_ms,
                self.config.max_burst as nat,
            ),
            None => Seq::empty(),
        }
    }

    /// The repeats that are due, as events.
    pub open spec fn due_events(self, now_ms: u64) -> Seq<KeyModel> {
        Seq::new(
            self.due(now_ms).len(),
            |i: int|
                KeyModel {
                    time_us: capped(self.due(now_ms)[i] * 1_000),
                    keycode: self.held->Some_0.keycode,
                    state: KeyDelivery::Repeat,
                    device: self.held->Some_0.device,
                },
        )
    }

    /// The state after the timer. Repeats that were missed are dropped: the
    /// next one lies behind `now`.
    pub open spec fn after_tick(self, now_ms: u64) -> Self {
        let now = self.now(now_ms);
        RepeaterModel {
            last_time_ms: now,
            held: match self.held {
                None => None,
                Some(held) => {
                    let next = time_after(
                        held.next_repeat_ms,
                        now,
                        self.config.interval_ms,
                        self.config.max_burst as nat,
                    );
                    Some(
                        HeldModel {
                            next_repeat_ms: if next <= now {
                                capped(now + self.config.interval_ms)
                            } else {
                                next
                            },
                            ..held
                        },
                    )
                },
            },
            ..self
        }
    }
}

impl KeyRepeater {
    pub closed spec fn model(&self) -> RepeaterModel {
        RepeaterModel {
            config: self.config,
            held: match self.held {
                Some(held) => Some(
                    HeldModel {
                        keycode: held.keycode,
                        device: held.device@,
                        next_repeat_ms: held.next_repeat_ms,
                    },
                ),
                None => None,
            },
            last_time_ms: self.last_time_ms,
            last_event_us: self.last_event_us,
        }
    }

    pub open spec fn wf(&self) -> bool {
        self.model().wf()
    }

    /// A repeat state machine with a sanitized configuration.
    pub fn new(config: KeyRepeatConfig) -> (repeater: Self)
        ensures
            repeater.wf(),
            repeater.model() == RepeaterModel::fresh(config),
    {
        KeyRepeater { config: config.sanitized(), held: None, last_time_ms: 0, last_event_us: 0 }
    }

    /// The effective configuration.
    pub fn config(&self) -> (config: KeyRepeatConfig)
        ensures
            config == self.model().config,
    {
        self.config
    }

    /// Consumes a physical key transition.
    pub fn key(&mut self, sample: KeySample) -> (events: Vec<KeyEvent>)
        requires
            old(self).wf(),
        ensures
            final(self).wf(),
            final(self).model() == old(self).model().after_key(
                sample.time_us,
                sample.keycode,
                sample.state,
                sample.device@,
            ),
            key_views(events@) == seq![
                KeyModel {
                    time_us: old(self).model().event_time(sample.time_us),
                    keycode: sample.keycode,
                    state: match sample.state {
                        PhysicalKeyState::Pressed => KeyDelivery::Pressed,
                        PhysicalKeyState::Released => KeyDelivery::Released,
                    },
                    device: sample.device@,
                },
            ],
    {
        let ghost before = self.model();
        let time_us: u64 = later(later(micros(self.last_time_ms), self.last_event_us), sample.time_us);
        assert(time_us == before.event_time(sample.time_us));
        self.last_event_us = time_us;
        self.last_time_ms = time_us / 1_000;
        let state = match sample.state {
            PhysicalKeyState::Pressed => {
                self.held = Some(
                    HeldKey {
                        keycode: sample.keycode,
                        device: sample.device.clone(),
                        next_repeat_ms: capped_sum(self.last_time_ms, self.config.delay_ms),
                    },
                );
                KeyDelivery::Pressed
            },
            PhysicalKeyState::Released => {
                let matches_held = match &self.held {
                    Some(held) => held.keycode == sample.keycode && same(
                        held.device.as_str(),
                        sample.device.as_str(),
                    ),
                    None => false,
                };
                if matches_held {
                    self.held = None;
                }
                KeyDelivery::Released
            },
        };
        let mut events: Vec<KeyEvent> = Vec::new();
        let event = KeyEvent { time_us, keycode: sample.keycode, state, device: sample.device };
        let ghost told = event@;
        events.push(event);
        assert(key_views(events@) =~= seq![told]);
        events
    }

    /// Generates bounded repeat events up to `now_ms`.
    pub fn tick(&mut self, now_ms: u64) -> (events: Vec<KeyEvent>)
        requires
            old(self).wf(),
        ensures
            final(self).wf(),
            final(self).model() == old(self).model().after_tick(now_ms),
            key_views(events@) == old(self).model().due_events(now_ms),
    {
        let ghost before = self.model();
        let now_ms: u64 = later(self.last_time_ms, now_ms);
        self.last_time_ms = now_ms;
        let mut events: Vec<KeyEvent> = Vec::new();
        let interval: u64 = self.config.interval_ms;
        match self.held.take() {
            None => {
                assert(key_views(events@) =~= before.due_events(now_ms));
            },
            Some(held) => {
                let mut held = held;
                let ghost start = held.next_repeat_ms;
                let ghost times = repeat_times(
                    start,
                    now_ms,
                    interval,
                    before.config.max_burst as nat,
                );
                let mut left: u8 = self.config.max_burst;
                assert(times.subrange(0, times.len() as int) =~= times);
                while left > 0 && held.next_repeat_ms <= now_ms
                    invariant
                        before.wf(),
                        before.config == self.config,
                        self.held is None,
                        self.last_time_ms == now_ms,
                        before.held is Some,
                        interval == before.config.interval_ms,
                        self.last_event_us == before.last_event_us,
                        held.keycode == before.held->Some_0.keycode,
                        held.device@ == before.held->Some_0.device,
                        left <= before.config.max_burst,
                        times == repeat_times(
                            before.held->Some_0.next_repeat_ms,
                            now_ms,
                            interval,
                            before.config.max_burst as nat,
                        ),
                        events.len() <= times.len(),
                        repeat_times(held.next_repeat_ms, now_ms, interval, left as nat)
                            == times.subrange(events.len() as int, times.len() as int),
                        time_after(held.next_repeat_ms, now_ms, interval, left as nat)
                            == time_after(
                            before.held->Some_0.next_repeat_ms,
                            now_ms,
                            interval,
                            before.config.max_burst as nat,
                        ),
                        forall|i: int|
                            0 <= i < events.len() ==> (#[trigger] events@[i])@ == (KeyModel {
                                time_us: capped(times[i] * 1_000),
                                keycode: before.held->Some_0.keycode,
                                state: KeyDelivery::Repeat,
                                device: before.held->Some_0.device,
                            }),
                    decreases left,
                {
                    let repeat_ms: u64 = held.next_repeat_ms;
                    let time_us: u64 = micros(repeat_ms);
                    let ghost rest = times.subrange(events.len() as int, times.len() as int);
                    assert(rest == repeat_times(repeat_ms, now_ms, interval, left as nat));
                    assert(rest.len() > 0 && rest[0] == repeat_ms);
                    assert(times[events.len() as int] == repeat_ms);
                    assert(rest.subrange(1, rest.len() as int) =~= times.subrange(
                        events.len() + 1,
                        times.len() as int,
                    ));
                    events.push(
                        KeyEvent {
                            time_us,
                            keycode: held.keycode,
                            state: KeyDelivery::Repeat,
                            device: held.device.clone(),
                        },
                    );
                    held.next_repeat_ms = capped_sum(held.next_repeat_ms, interval);
                    left -= 1;
                    assert(rest.subrange(1, rest.len() as int) =~= repeat_times(
                        held.next_repeat_ms,
                        now_ms,
                        interval,
                        left as nat,
                    ));
                }
                assert(events.len() == times.len());
                if held.next_repeat_ms <= now_ms {
                    held.next_repeat_ms = capped_sum(now_ms, interval);
                }
                self.held = Some(held);
                proof {
                    assert(before.due(now_ms) == times);
                    assert(key_views(events@) =~= before.due_events(now_ms));
                }
            },
        }
        events
    }

    /// Stops repeating without fabricating a release event.
    pub fn cancel(&mut self)
        ensures
            old(self).wf() ==> final(self).wf(),
            final(self).model() == (RepeaterModel { held: None, ..old(self).model() }),
    {
        self.held = None;
    }
}

impl Default for KeyRepeater {
    fn default() -> (repeater: Self)
        ensures
            repeater.wf(),
            repeater.model() == RepeaterModel::fresh(default_repeat()),
    {
        KeyRepeater::new(KeyRepeatConfig::default())
    }
}

// ---- laws --------------------------------------------------------------------

/// No tick gives out more repeats than the configured burst, which is at most
/// 32, however long the compositor was stalled.
pub proof fn bursts_are_bounded(repeater: RepeaterModel, now_ms: u64)
    requires
        repeater.wf(),
    ensures
        repeater.due_events(now_ms).len() <= repeater.config.max_burst <= 32,
{
    if repeater.held is Some {
        repeat_times_are_bounded(
            repeater.held->Some_0.next_repeat_ms,
            repeater.now(now_ms),
            repeater.config.interval_ms,
            repeater.config.max_burst as nat,
        );
    }
}

proof fn repeat_times_are_bounded(next: u64, now: u64, interval: u64, left: nat)
    ensures
        repeat_times(next, now, interval, left).len() <= left,
        forall|i: int|
            0 <= i < repeat_times(next, now, interval, left).len() ==> next <= (
            #[trigger] repeat_times(next, now, interval, left)[i]) <= now,
        forall|i: int, j: int|
            0 <= i <= j < repeat_times(next, now, interval, left).len() ==> (
            #[trigger] repeat_times(next, now, interval, left)[i]) <= (#[trigger] repeat_times(
                next,
                now,
                interval,
                left,
            )[j]),
    decreases left,
{
    if left > 0 && next <= now {
        let rest = repeat_times(capped(next + interval), now, interval, (left - 1) as nat);
        repeat_times_are_bounded(capped(next + interval), now, interval, (left - 1) as nat);
        let all = repeat_times(next, now, interval, left);
        assert forall|i: int, j: int| 0 <= i <= j < all.len() implies (#[trigger] all[i]) <= (
        #[trigger] all[j]) by {
            if i > 0 {
                assert(rest[i - 1] <= rest[j - 1]);
            } else if j > 0 {
                assert(rest[j - 1] >= next);
            }
        }
    }
}

/// After a tick the next repeat lies in the future, unless the clock is at its
/// end.
pub proof fn no_backlog_remains(repeater: RepeaterModel, now_ms: u64)
    requires
        repeater.wf(),
        repeater.held is Some,
    ensures
        repeater.after_tick(now_ms).held matches Some(held) && (held.next_repeat_ms > repeater.now(
            now_ms,
        ) || held.next_repeat_ms == u64::MAX),
{
}

proof fn repeat_times_are_even(next: u64, now: u64, interval: u64, left: nat)
    requires
        now + interval <= u64::MAX,
    ensures
        ({
            let times = repeat_times(next, now, interval, left);
            &&& times.len() > 0 ==> times[0] == next
            &&& forall|i: int, j: int|
                0 <= i && i + 1 == j && j < times.len() ==> #[trigger] times[j]
                    == #[trigger] times[i] + interval
        }),
    decreases left,
{
    if left > 0 && next <= now {
        let after = (next + interval) as u64;
        let rest = repeat_times(after, now, interval, (left - 1) as nat);
        let all = repeat_times(next, now, interval, left);
        repeat_times_are_even(after, now, interval, (left - 1) as nat);
        assert forall|i: int, j: int|
            0 <= i && i + 1 == j && j < all.len() implies #[trigger] all[j] == #[trigger] all[i]
            + interval by {
            assert(all[j] == rest[i]);
            if i > 0 {
                assert(all[i] == rest[i - 1]);
            }
        }
    }
}

proof fn due_times_are_even(repeater: RepeaterModel, now_ms: u64)
    requires
        repeater.wf(),
        repeater.held is Some,
        repeater.now(now_ms) * 1_000 + 1_000_000 <= u64::MAX,
    ensures
        ({
            let times = repeater.due(now_ms);
            let held = repeater.held->Some_0;
            &&& times.len() == 0 <==> held.next_repeat_ms > repeater.now(now_ms)
            &&& times.len() > 0 ==> times[0] == held.next_repeat_ms
            &&& forall|i: int, j: int|
                0 <= i && i + 1 == j && j < times.len() ==> #[trigger] times[j]
                    == #[trigger] times[i] + repeater.config.interval_ms
            &&& forall|i: int| 0 <= i < times.len() ==> #[trigger] times[i] <= repeater.now(now_ms)
        }),
{
    let next = repeater.held->Some_0.next_repeat_ms;
    let now = repeater.now(now_ms);
    repeat_times_are_bounded(
        next,
        now,
        repeater.config.interval_ms,
        repeater.config.max_burst as nat,
    );
    repeat_times_are_even(
        next,
        now,
        repeater.config.interval_ms,
        repeater.config.max_burst as nat,
    );
}

/// A tick gives out repeats of the held key only, at most the configured
/// burst, from the time that was due on and exactly one interval apart, none
/// of them in the future; and none where no key is held or its delay has not
/// passed. Another tick at the same time gives out nothing: no backlog is
/// carried over. (The clock is not within an interval of its end.)
pub proof fn repeats_are_evenly_spaced(repeater: RepeaterModel, now_ms: u64)
    requires
        repeater.wf(),
        repeater.now(now_ms) * 1_000 + 1_000_000 <= u64::MAX,
    ensures
        ({
            let events = repeater.due_events(now_ms);
            &&& events.len() <= repeater.config.max_burst
            &&& events.len() == 0 <==> (match repeater.held {
                Some(held) => held.next_repeat_ms > repeater.now(now_ms),
                None => true,
            })
            &&& events.len() > 0 ==> events[0].time_us == repeater.held->Some_0.next_repeat_ms
                * 1_000
            &&& forall|i: int, j: int|
                0 <= i && i + 1 == j && j < events.len() ==> (#[trigger] events[j]).time_us == (
                #[trigger] events[i]).time_us + repeater.config.interval_ms * 1_000
            &&& forall|i: int|
                0 <= i < events.len() ==> {
                    &&& (#[trigger] events[i]).state == KeyDelivery::Repeat
                    &&& events[i].keycode == repeater.held->Some_0.keycode
                    &&& events[i].device == repeater.held->Some_0.device
                    &&& events[i].time_us <= repeater.now(now_ms) * 1_000
                }
            &&& repeater.after_tick(now_ms).due_events(now_ms).len() == 0
        }),
{
    bursts_are_bounded(repeater, now_ms);
    if repeater.held is Some {
        let times = repeater.due(now_ms);
        let events = repeater.due_events(now_ms);
        due_times_are_even(repeater, now_ms);
        assert forall|i: int| 0 <= i < events.len() implies (#[trigger] events[i]).time_us
            == times[i] * 1_000 by {
            assert(times[i] <= repeater.now(now_ms));
        }
        assert forall|i: int, j: int|
            0 <= i && i + 1 == j && j < events.len() implies (#[trigger] events[j]).time_us == (
        #[trigger] events[i]).time_us + repeater.config.interval_ms * 1_000 by {
            assert(times[j] == times[i] + repeater.config.interval_ms);
        }
        no_backlog_remains(repeater, now_ms);
    }
}

/// The repeats of a later tick come after all those of an earlier one, and
/// after everything that the clock has passed.
pub proof fn repeats_never_go_back(repeater: RepeaterModel, now_ms: u64, later_ms: u64)
    requires
        repeater.wf(),
        repeater.now(now_ms) * 1_000 + 1_000_000 <= u64::MAX,
    ensures
        forall|i: int, j: int|
            0 <= i < repeater.due_events(now_ms).len() && 0 <= j < repeater.after_tick(
                now_ms,
            ).due_events(later_ms).len() ==> (#[trigger] repeater.due_events(now_ms)[i]).time_us < (
            #[trigger] repeater.after_tick(now_ms).due_events(later_ms)[j]).time_us,
{
    if repeater.held is Some {
        let held = repeater.held->Some_0;
        let now = repeater.now(now_ms);
        let after = repeater.after_tick(now_ms);
        repeats_are_evenly_spaced(repeater, now_ms);
        no_backlog_remains(repeater, now_ms);
        repeat_times_are_bounded(
            after.held->Some_0.next_repeat_ms,
            after.now(later_ms),
            after.config.interval_ms,
            after.config.max_burst as nat,
        );
        assert forall|i: int, j: int|
            0 <= i < repeater.due_events(now_ms).len() && 0 <= j < after.due_events(
                later_ms,
            ).len() implies (#[trigger] repeater.due_events(now_ms)[i]).time_us < (
        #[trigger] after.due_events(later_ms)[j]).time_us by {
            assert(repeater.due_events(now_ms)[i].time_us <= now * 1_000);
            assert(after.due(later_ms)[j] >= after.held->Some_0.next_repeat_ms);
        }
    }
}

/// A key transition is given out at or after every earlier event.
pub proof fn keys_never_go_back(
    repeater: RepeaterModel,
    time_us: u64,
    keycode: u32,
    state: PhysicalKeyState,
    device: Seq<char>,
)
    ensures
        repeater.last_event_us <= repeater.event_time(time_us),
        repeater.after_key(time_us, keycode, state, device).last_event_us == repeater.event_time(
            time_us,
        ),
{
}

/// A released key repeats no more.
pub proof fn released_keys_do_not_repeat(
    repeater: RepeaterModel,
    time_us: u64,
    now_ms: u64,
)
    requires
        repeater.held is Some,
    ensures
        ({
            let held = repeater.held->Some_0;
            repeater.after_key(
                time_us,
                held.keycode,
                PhysicalKeyState::Released,
                held.device,
            ).due_events(now_ms) == Seq::<KeyModel>::empty()
        }),
{
    let held = repeater.held->Some_0;
    assert(repeater.after_key(
        time_us,
        held.keycode,
        PhysicalKeyState::Released,
        held.device,
    ).due_events(now_ms) =~= Seq::empty());
}

/// The limits of a configuration: a delay of at most a minute, an interval from
/// one millisecond to a second, and from one repeat to 32 at a time. What is
/// within them is kept. The default waits 400 milliseconds and repeats every
/// 33, four at a time.
pub proof fn configurations_are_kept_within_limits(config: KeyRepeatConfig)
    ensures
        ({
            let kept = config.limited();
            &&& kept.delay_ms <= 60_000 && (config.delay_ms <= 60_000 ==> kept.delay_ms
                == config.delay_ms)
            &&& 1 <= kept.interval_ms <= 1_000 && (1 <= config.interval_ms <= 1_000
                ==> kept.interval_ms == config.interval_ms)
            &&& 1 <= kept.max_burst <= 32 && (1 <= config.max_burst <= 32 ==> kept.max_burst
                == config.max_burst)
            &&& config.delay_ms > 60_000 ==> kept.delay_ms == 60_000
            &&& config.interval_ms > 1_000 ==> kept.interval_ms == 1_000
            &&& config.max_burst > 32 ==> kept.max_burst == 32
        }),
        RepeaterModel::fresh(config).held is None,
        RepeaterModel::fresh(default_repeat()).config == (KeyRepeatConfig {
            delay_ms: 400,
            interval_ms: 33,
            max_burst: 4,
        }),
{
}

/// A pressed key repeats once its delay has passed, and not before: it alone,
/// with its own device. (The clock is not within a minute of its end.)
pub proof fn a_pressed_key_repeats_after_its_delay(
    repeater: RepeaterModel,
    time_us: u64,
    keycode: u32,
    device: Seq<char>,
    now_ms: u64,
)
    requires
        repeater.wf(),
        repeater.event_time(time_us) + 100_000_000 <= u64::MAX,
        repeater.event_time(time_us) / 1_000 <= now_ms,
        now_ms * 1_000 + 1_000_000 <= u64::MAX,
    ensures
        ({
            let pressed = repeater.after_key(time_us, keycode, PhysicalKeyState::Pressed, device);
            let events = pressed.due_events(now_ms);
            &&& events.len() == 0 <==> now_ms < repeater.event_time(time_us) / 1_000
                + repeater.config.delay_ms
            &&& forall|i: int|
                0 <= i < events.len() ==> (#[trigger] events[i]).keycode == keycode
                    && events[i].device == device && events[i].state == KeyDelivery::Repeat
            &&& pressed.config == repeater.config
        }),
{
    let pressed = repeater.after_key(time_us, keycode, PhysicalKeyState::Pressed, device);
    repeats_are_evenly_spaced(pressed, now_ms);
}

/// Only the release of the key that repeats ends its repeat: another key, or
/// the same one of another device, leaves it as it is.
pub proof fn other_releases_keep_the_repeat(
    repeater: RepeaterModel,
    time_us: u64,
    keycode: u32,
    device: Seq<char>,
)
    requires
        repeater.held matches Some(held) && (held.keycode != keycode || held.device != device),
    ensures
        repeater.after_key(time_us, keycode, PhysicalKeyState::Released, device).held
            == repeater.held,
{
}

/// A transition counts at the latest of its own time, the timer's and that of
/// the transition before it.
pub proof fn transitions_count_at_the_latest_time(repeater: RepeaterModel, time_us: u64)
    ensures
        repeater.event_time(time_us) >= time_us,
        repeater.event_time(time_us) >= repeater.last_event_us,
        repeater.last_time_ms * 1_000 <= u64::MAX ==> repeater.event_time(time_us)
            >= repeater.last_time_ms * 1_000,
        repeater.last_event_us <= time_us && repeater.last_time_ms * 1_000 <= time_us
            ==> repeater.event_time(time_us) == time_us,
{
}

proof fn time_after_follows(next: u64, now: u64, interval: u64, left: nat)
    requires
        now + interval <= u64::MAX,
        interval >= 1,
    ensures
        ({
            let times = repeat_times(next, now, interval, left);
            &&& times.len() == 0 ==> time_after(next, now, interval, left) == next
            &&& times.len() > 0 ==> time_after(next, now, interval, left) == times.last() + interval
            &&& times.len() < left ==> time_after(next, now, interval, left) > now
        }),
    decreases left,
{
    if left > 0 && next <= now {
        let after = (next + interval) as u64;
        let rest = repeat_times(after, now, interval, (left - 1) as nat);
        let all = repeat_times(next, now, interval, left);
        time_after_follows(after, now, interval, (left - 1) as nat);
        if rest.len() > 0 {
            assert(all.last() == rest.last());
        }
    }
}

/// A tick keeps the key that repeats and its pace: the next repeat is one
/// interval behind the last that was given out, or behind the present where
/// more were due than a tick gives out; where none was due, nothing changes.
pub proof fn a_tick_keeps_the_pace(repeater: RepeaterModel, now_ms: u64)
    requires
        repeater.wf(),
        repeater.held is Some,
        repeater.now(now_ms) * 1_000 + 1_000_000 <= u64::MAX,
    ensures
        ({
            let held = repeater.held->Some_0;
            let events = repeater.due_events(now_ms);
            let after = repeater.after_tick(now_ms);
            &&& after.held matches Some(next) && {
                &&& next.keycode == held.keycode
                &&& next.device == held.device
                &&& events.len() == 0 ==> next == held
                &&& 0 < events.len() < repeater.config.max_burst ==> next.next_repeat_ms * 1_000
                    == events.last().time_us + repeater.config.interval_ms * 1_000
                &&& events.len() == repeater.config.max_burst ==> next.next_repeat_ms * 1_000
                    == events.last().time_us + repeater.config.interval_ms * 1_000
                    || next.next_repeat_ms == repeater.now(now_ms) + repeater.config.interval_ms
            }
            &&& after.config == repeater.config
            &&& after.last_event_us == repeater.last_event_us
            &&& after.last_time_ms >= now_ms && after.last_time_ms >= repeater.last_time_ms
        }),
{
    let held = repeater.held->Some_0;
    let now = repeater.now(now_ms);
    time_after_follows(
        held.next_repeat_ms,
        now,
        repeater.config.interval_ms,
        repeater.config.max_burst as nat,
    );
    bursts_are_bounded(repeater, now_ms);
    due_times_are_even(repeater, now_ms);
    let times = repeater.due(now_ms);
    let events = repeater.due_events(now_ms);
    if events.len() > 0 {
        assert(times[times.len() - 1] <= now);
        assert(events[events.len() - 1].time_us == times[times.len() - 1] * 1_000);
    }
}

/// A repeater starts with its configuration within the limits, without a held key
/// and with its clocks at zero.
pub proof fn repeaters_start_at_zero(config: KeyRepeatConfig)
    ensures
        RepeaterModel::fresh(config).config == config.limited(),
        RepeaterModel::fresh(config).held is None,
        RepeaterModel::fresh(config).last_time_ms == 0 && RepeaterModel::fresh(config).last_event_us
            == 0,
{
}

} // verus!
