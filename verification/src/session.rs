//! Whole-session setup decoding and callback bookkeeping.
//!
//! These are the decisions that a radio session makes around its audio
//! callbacks: decoding numeric configuration selectors, the bounded
//! single-producer event queue, the drift-free periodic publication deadline,
//! and the per-worker busy flag.

use vstd::prelude::*;
use crate::dcs_code::{code_supported, spec_code_supported};
use crate::receive_path::{CenterSlicerConfig, Config, CtcssConfig, DcsConfig, EnvelopeConfig, FilterConfig, FrontendConfig, VoxConfig};
use crate::receive_profiles::{baseband, ctcss, noise, spec_narrow_tones, FilterProfile};
use crate::receive_qualification::{self, CarrierSource, SubaudibleSource};
use crate::timer::NATIVE_SAMPLE_RATE_HZ;
use crate::dcs_turnoff::DcsTurnoffConfig;
use crate::signal_mode::{SignalModeConfig, SIGNAL_MODE_CONFIG_SIZE, TONE_COUNT};

verus! {

/// Interleaved channels of every native session span.
pub const CANONICAL_CHANNELS: u32 = 2;
/// Session ABI revision.
pub const ABI_VERSION: u32 = 4;
/// Successful session call.
pub const OK: i32 = 0;
/// Rejected argument or configuration.
pub const INVALID_ARGUMENT: i32 = -1;
/// A borrowed provider reported failure.
pub const PROVIDER_FAILED: i32 = -2;
/// A callback exceeded its preallocated frame count.
pub const FRAME_COUNT_EXCEEDED: i32 = -3;
/// A well-formed but unsupported stream shape.
pub const UNSUPPORTED: i32 = -4;
/// A callback before warm-up completed.
pub const NOT_READY: i32 = -5;
/// A reentrant callback on one serial worker.
pub const BUSY: i32 = -6;

/// Slots of each bounded event queue.
pub const EVENT_CAPACITY: usize = 64;
/// Largest signed-16 PCM magnitude accepted for squelch levels.
pub const MAX_SIGNED_PCM_LEVEL: u32 = 32_767;
/// Bits of every legacy CTCSS table index.
pub const VALID_CTCSS_TONE_MASK: u64 = 0x3f_ffff_ffff;

/// Composition of one transmit output channel.
#[derive(Clone, Copy, Debug, PartialEq, Eq, Structural)]
pub enum OutputRoute {
    /// Silence.
    Disabled,
    /// Program audio only.
    Voice,
    /// Subaudible signaling only.
    Tone,
    /// Program audio and subaudible signaling.
    Composite,
    /// Program audio on the auxiliary channel.
    AuxiliaryVoice,
}

impl OutputRoute {
    /// Decode the numeric route selector.
    pub fn parse(value: u32) -> (route: Result<Self, i32>)
        ensures
            value == 0 ==> route == Ok::<OutputRoute, i32>(OutputRoute::Disabled),
            value == 1 ==> route == Ok::<OutputRoute, i32>(OutputRoute::Voice),
            value == 2 ==> route == Ok::<OutputRoute, i32>(OutputRoute::Tone),
            value == 3 ==> route == Ok::<OutputRoute, i32>(OutputRoute::Composite),
            value == 4 ==> route == Ok::<OutputRoute, i32>(OutputRoute::AuxiliaryVoice),
            value > 4 ==> route == Err::<OutputRoute, i32>(INVALID_ARGUMENT),
    {
        match value {
            0 => Ok(OutputRoute::Disabled),
            1 => Ok(OutputRoute::Voice),
            2 => Ok(OutputRoute::Tone),
            3 => Ok(OutputRoute::Composite),
            4 => Ok(OutputRoute::AuxiliaryVoice),
            _ => Err(INVALID_ARGUMENT),
        }
    }

    /// Whether the route carries program audio.
    pub fn voice(self) -> (carries: bool)
        ensures
            carries == (self == OutputRoute::Voice || self == OutputRoute::Composite
                || self == OutputRoute::AuxiliaryVoice),
    {
        match self {
            OutputRoute::Voice | OutputRoute::Composite | OutputRoute::AuxiliaryVoice => true,
            _ => false,
        }
    }

    /// Whether the route carries subaudible signaling.
    pub fn tone(self) -> (carries: bool)
        ensures
            carries == (self == OutputRoute::Tone || self == OutputRoute::Composite),
    {
        match self {
            OutputRoute::Tone | OutputRoute::Composite => true,
            _ => false,
        }
    }
}

/// Decode a strict numeric boolean: only zero and one are accepted.
pub fn bool32(value: u32) -> (decoded: Result<bool, i32>)
    ensures
        value == 0 ==> decoded == Ok::<bool, i32>(false),
        value == 1 ==> decoded == Ok::<bool, i32>(true),
        value > 1 ==> decoded == Err::<bool, i32>(INVALID_ARGUMENT),
{
    match value {
        0 => Ok(false),
        1 => Ok(true),
        _ => Err(INVALID_ARGUMENT),
    }
}

/// Decode the numeric carrier-source selector.
pub fn carrier_source(value: u32) -> (source: Result<CarrierSource, i32>)
    ensures
        value == 0 ==> source == Ok::<CarrierSource, i32>(CarrierSource::Ignore),
        value == 1 ==> source == Ok::<CarrierSource, i32>(CarrierSource::DspNoise),
        value == 2 ==> source == Ok::<CarrierSource, i32>(CarrierSource::DspVox),
        value == 3 ==> source == Ok::<CarrierSource, i32>(CarrierSource::Hardware),
        value == 4 ==> source == Ok::<CarrierSource, i32>(CarrierSource::HardwareInverted),
        value == 5 ==> source == Ok::<CarrierSource, i32>(CarrierSource::Parallel),
        value == 6 ==> source == Ok::<CarrierSource, i32>(CarrierSource::ParallelInverted),
        value > 6 ==> source == Err::<CarrierSource, i32>(INVALID_ARGUMENT),
{
    match value {
        0 => Ok(CarrierSource::Ignore),
        1 => Ok(CarrierSource::DspNoise),
        2 => Ok(CarrierSource::DspVox),
        3 => Ok(CarrierSource::Hardware),
        4 => Ok(CarrierSource::HardwareInverted),
        5 => Ok(CarrierSource::Parallel),
        6 => Ok(CarrierSource::ParallelInverted),
        _ => Err(INVALID_ARGUMENT),
    }
}

/// Decode the numeric subaudible-source selector.
pub fn subaudible_source(value: u32) -> (source: Result<SubaudibleSource, i32>)
    ensures
        value == 0 ==> source == Ok::<SubaudibleSource, i32>(SubaudibleSource::Ignore),
        value == 1 ==> source == Ok::<SubaudibleSource, i32>(SubaudibleSource::Hardware),
        value == 2 ==> source == Ok::<SubaudibleSource, i32>(SubaudibleSource::HardwareInverted),
        value == 3 ==> source == Ok::<SubaudibleSource, i32>(SubaudibleSource::Dsp),
        value == 4 ==> source == Ok::<SubaudibleSource, i32>(SubaudibleSource::Parallel),
        value == 5 ==> source == Ok::<SubaudibleSource, i32>(SubaudibleSource::ParallelInverted),
        value > 5 ==> source == Err::<SubaudibleSource, i32>(INVALID_ARGUMENT),
{
    match value {
        0 => Ok(SubaudibleSource::Ignore),
        1 => Ok(SubaudibleSource::Hardware),
        2 => Ok(SubaudibleSource::HardwareInverted),
        3 => Ok(SubaudibleSource::Dsp),
        4 => Ok(SubaudibleSource::Parallel),
        5 => Ok(SubaudibleSource::ParallelInverted),
        _ => Err(INVALID_ARGUMENT),
    }
}

/// How the transmitter ends subaudible signaling before PTT release.
#[derive(Clone, Copy, Debug, PartialEq, Eq, Structural)]
pub enum ToneOffMode {
    /// Release without a turn-off sequence.
    Immediate,
    /// Shift the CTCSS phase before release.
    PhaseShift,
    /// Remove the CTCSS tone before release.
    ToneRemove,
    /// Substitute a low-frequency tail tone before release.
    TailTone,
}

/// Decode the numeric tone-off selector.
pub fn tone_off_mode(value: u32) -> (mode: Result<ToneOffMode, i32>)
    ensures
        value == 0 ==> mode == Ok::<ToneOffMode, i32>(ToneOffMode::Immediate),
        value == 1 ==> mode == Ok::<ToneOffMode, i32>(ToneOffMode::PhaseShift),
        value == 2 ==> mode == Ok::<ToneOffMode, i32>(ToneOffMode::ToneRemove),
        value == 3 ==> mode == Ok::<ToneOffMode, i32>(ToneOffMode::TailTone),
        value > 3 ==> mode == Err::<ToneOffMode, i32>(INVALID_ARGUMENT),
{
    match value {
        0 => Ok(ToneOffMode::Immediate),
        1 => Ok(ToneOffMode::PhaseShift),
        2 => Ok(ToneOffMode::ToneRemove),
        3 => Ok(ToneOffMode::TailTone),
        _ => Err(INVALID_ARGUMENT),
    }
}

/// Claim a serial worker's busy flag; a second concurrent claim is refused.
pub fn enter(busy: &mut bool) -> (result: Result<(), i32>)
    ensures
        *old(busy) ==> result == Err::<(), i32>(BUSY) && *final(busy),
        !*old(busy) ==> result == Ok::<(), i32>(()) && *final(busy),
{
    if *busy {
        Err(BUSY)
    } else {
        *busy = true;
        Ok(())
    }
}

/// The next publication deadline after `sample_index`: the first deadline
/// on the grid `next + k * interval` beyond it, saturated at `u64::MAX`.
pub open spec fn spec_next_deadline(sample_index: int, next: int, interval: int) -> int {
    let steps = (sample_index - next) / interval + 1;
    let deadline = next + steps * interval;
    if deadline > u64::MAX { u64::MAX as int } else { deadline }
}

/// A publication deadline on the grid of a worker that started at frame
/// zero: the first multiple of the interval after the frames consumed.
pub open spec fn spec_on_grid(sample_index: int, next: int, interval: int) -> bool {
    next == (sample_index / interval + 1) * interval
}

/// Across calls, the periodic status flag marks exactly the spans that
/// cross a multiple of the interval, and the deadline stays on the grid
/// (while the next grid point fits the frame counter).
pub proof fn lemma_publication_crossing(sample_index: int, frames: int, next: int, interval: int)
    requires
        interval > 0,
        sample_index >= 0,
        frames >= 0,
        spec_on_grid(sample_index, next, interval),
        ((sample_index + frames) / interval + 1) * interval <= u64::MAX,
    ensures
        (sample_index + frames >= next) <==> exists|k: int| k >= 1 && sample_index < #[trigger] (k * interval)
            <= sample_index + frames,
        sample_index + frames >= next ==> spec_on_grid(
            sample_index + frames, spec_next_deadline(sample_index + frames, next, interval), interval),
        sample_index + frames < next ==> spec_on_grid(sample_index + frames, next, interval),
{
    let s = sample_index;
    let e = sample_index + frames;
    let i = interval;
    let qs = s / i;
    let qe = e / i;
    vstd::arithmetic::div_mod::lemma_fundamental_div_mod(s, i);
    vstd::arithmetic::div_mod::lemma_fundamental_div_mod(e, i);
    vstd::arithmetic::div_mod::lemma_mod_bound(s, i);
    vstd::arithmetic::div_mod::lemma_mod_bound(e, i);
    assert(qs >= 0) by (nonlinear_arith) requires s >= 0, i > 0, qs == s / i;
    assert(next == (qs + 1) * i);
    assert((qs + 1) * i == qs * i + i) by (nonlinear_arith);
    if e >= next {
        let k = qs + 1;
        assert(s < k * i <= e);
        let steps = (e - next) / i + 1;
        assert(qe >= qs + 1) by (nonlinear_arith)
            requires e >= (qs + 1) * i, e == i * qe + e % i, 0 <= e % i < i, i > 0;
        assert(e - next == (qe - qs - 1) * i + e % i) by (nonlinear_arith)
            requires e == i * qe + e % i, next == (qs + 1) * i;
        vstd::arithmetic::div_mod::lemma_fundamental_div_mod_converse(e - next, i, qe - qs - 1, e % i);
        assert(steps == qe - qs);
        assert(next + steps * i == (qe + 1) * i) by (nonlinear_arith)
            requires next == (qs + 1) * i, steps == qe - qs;
    } else {
        assert forall|k: int| k >= 1 && s < #[trigger] (k * i) implies !(k * i <= e) by {
            if k <= qs {
                assert(k * i <= qs * i) by (nonlinear_arith) requires k <= qs, i > 0;
            } else {
                assert(k * i >= (qs + 1) * i) by (nonlinear_arith) requires k >= qs + 1, i > 0;
            }
        }
        assert(qe == qs) by (nonlinear_arith)
            requires e < (qs + 1) * i, e >= s, s == i * qs + s % i, 0 <= s % i, e == i * qe + e % i, 0 <= e % i < i,
                i > 0, s % i < i;
    }
}

/// Report whether the periodic status deadline has been reached, advancing
/// it along its fixed grid so callback partitioning cannot drift it.
pub fn publication_due(sample_index: u64, next: &mut u64, interval: u64) -> (due: bool)
    requires
        interval > 0,
        sample_index < u64::MAX,
    ensures
        due == (sample_index >= *old(next)),
        !due ==> *final(next) == *old(next),
        due ==> *final(next) == spec_next_deadline(sample_index as int, *old(next) as int, interval as int),
        due ==> *final(next) > sample_index,
{
    if sample_index < *next {
        return false;
    }
    let ghost start = *next as int;
    let ghost steps: int = 0;
    while *next <= sample_index
        invariant
            interval > 0,
            sample_index < u64::MAX,
            start <= sample_index,
            start == *old(next),
            0 <= steps,
            *next == start + steps * interval,
            steps == 0 || start + (steps - 1) * interval <= sample_index,
        decreases u64::MAX - *next,
    {
        proof {
            assert((steps + 1) * interval == steps * interval + interval) by (nonlinear_arith);
        }
        if *next > u64::MAX - interval {
            proof {
                lemma_deadline_saturates(sample_index as int, start, interval as int, steps);
            }
            *next = u64::MAX;
            return true;
        }
        *next = *next + interval;
        proof {
            steps = steps + 1;
        }
    }
    proof {
        lemma_deadline_exact(sample_index as int, start, interval as int, steps);
    }
    true
}

/// Once the grid point after `next` passes `u64::MAX`, the deadline saturates.
proof fn lemma_deadline_saturates(sample_index: int, start: int, interval: int, steps: int)
    requires
        interval > 0,
        0 <= steps,
        start <= sample_index,
        start + steps * interval <= sample_index,
        start + steps * interval + interval > u64::MAX,
    ensures
        spec_next_deadline(sample_index, start, interval) == u64::MAX,
{
    let q = (sample_index - start) / interval;
    assert(q >= steps) by (nonlinear_arith)
        requires
            interval > 0,
            0 <= steps,
            steps * interval <= sample_index - start,
            q == (sample_index - start) / interval;
    assert(start + (q + 1) * interval >= start + steps * interval + interval) by (nonlinear_arith)
        requires interval > 0, q >= steps;
}

/// The loop's final grid point is the first one beyond `sample_index`.
proof fn lemma_deadline_exact(sample_index: int, start: int, interval: int, steps: int)
    requires
        interval > 0,
        0 < steps,
        start <= sample_index,
        start + (steps - 1) * interval <= sample_index,
        start + steps * interval > sample_index,
        start + steps * interval <= u64::MAX,
    ensures
        spec_next_deadline(sample_index, start, interval) == start + steps * interval,
{
    let d = sample_index - start;
    assert(steps * interval == (steps - 1) * interval + interval) by (nonlinear_arith);
    assert((steps - 1) * interval <= d && d < steps * interval);
    assert(d / interval == steps - 1) by {
        vstd::arithmetic::div_mod::lemma_fundamental_div_mod_converse(
            d, interval, steps - 1, d - (steps - 1) * interval);
    }
}

/// Class of one observable edge emitted by a serial callback owner.
#[derive(Clone, Copy, Debug, PartialEq, Eq, Structural)]
pub enum EventKind {
    /// An empty event slot.
    Empty,
    /// Carrier indication changed.
    Carrier,
    /// Subaudible indication changed.
    Subaudible,
    /// Qualified receiver keying changed.
    ReceiverKeyed,
    /// Decoded CTCSS tone changed.
    CtcssDecode,
    /// DCS validity changed.
    DcsDecode,
    /// Logical PTT changed.
    Ptt,
    /// Transmitted CTCSS frequency changed.
    CtcssTransmit,
    /// Receiver blanking was armed.
    ReceiverBlanking,
    /// A borrowed provider failed.
    ProviderFailure,
}

impl EventKind {
    /// The stable numeric code of this event class.
    pub open spec fn spec_code(self) -> u32 {
        match self {
            EventKind::Empty => 0,
            EventKind::Carrier => 1,
            EventKind::Subaudible => 2,
            EventKind::ReceiverKeyed => 3,
            EventKind::CtcssDecode => 4,
            EventKind::DcsDecode => 5,
            EventKind::Ptt => 6,
            EventKind::CtcssTransmit => 7,
            EventKind::ReceiverBlanking => 8,
            EventKind::ProviderFailure => 9,
        }
    }

    /// The stable numeric code of this event class.
    pub fn code(self) -> (code: u32)
        ensures
            code == self.spec_code(),
    {
        match self {
            EventKind::Empty => 0,
            EventKind::Carrier => 1,
            EventKind::Subaudible => 2,
            EventKind::ReceiverKeyed => 3,
            EventKind::CtcssDecode => 4,
            EventKind::DcsDecode => 5,
            EventKind::Ptt => 6,
            EventKind::CtcssTransmit => 7,
            EventKind::ReceiverBlanking => 8,
            EventKind::ProviderFailure => 9,
        }
    }
}

/// One generation-tagged observable edge.
#[derive(Clone, Copy, Debug, PartialEq, Eq, Structural)]
pub struct Event {
    /// Session generation that produced the edge.
    pub generation_id: u64,
    /// Stream sample at which the edge was observed.
    pub sample_index: u64,
    /// Numeric [`EventKind`] code.
    pub kind: u32,
    /// Kind-specific value.
    pub value: i32,
}

impl Default for Event {
    fn default() -> (event: Self)
        ensures
            event == (Event { generation_id: 0, sample_index: 0, kind: 0, value: 0 }),
    {
        Event { generation_id: 0, sample_index: 0, kind: 0, value: 0 }
    }
}

/// Abstract contents of an event queue: pending events oldest first, and the
/// number of events dropped because the queue was full.
pub struct EventQueueModel {
    /// Pending events, oldest first.
    pub pending: Seq<Event>,
    /// Events refused because the queue was full (wrapping count).
    pub drops: u64,
}

/// The model after offering one event: appended when there is room,
/// otherwise counted as dropped.
pub open spec fn spec_push(model: EventQueueModel, event: Event) -> EventQueueModel {
    if model.pending.len() < EVENT_CAPACITY {
        EventQueueModel { pending: model.pending.push(event), drops: model.drops }
    } else {
        EventQueueModel { pending: model.pending, drops: model.drops.wrapping_add(1) }
    }
}

/// The model after offering a sequence of events in order.
pub open spec fn spec_push_all(model: EventQueueModel, events: Seq<Event>) -> EventQueueModel
    decreases events.len(),
{
    if events.len() == 0 {
        model
    } else {
        spec_push(spec_push_all(model, events.drop_last()), events.last())
    }
}

/// Bounded first-in first-out queue of observable edges.
///
/// At most [`EVENT_CAPACITY`] events wait; a push to a full queue is dropped
/// and counted rather than overwriting an unread event.
pub struct EventQueue {
    storage: Vec<Event>,
    head: usize,
    count: usize,
    drops: u64,
}

impl View for EventQueue {
    type V = EventQueueModel;

    closed spec fn view(&self) -> EventQueueModel {
        EventQueueModel {
            pending: Seq::new(
                self.count as nat,
                |i: int| self.storage@[(self.head + i) % (EVENT_CAPACITY as int)],
            ),
            drops: self.drops,
        }
    }
}

impl EventQueue {
    /// Storage and cursor invariant.
    pub closed spec fn wf(&self) -> bool {
        &&& self.storage.len() == EVENT_CAPACITY
        &&& self.head < EVENT_CAPACITY
        &&& self.count <= EVENT_CAPACITY
    }

    /// An empty queue with no drops.
    pub fn new() -> (queue: Self)
        ensures
            queue.wf(),
            queue@.pending.len() == 0,
            queue@.drops == 0,
    {
        let mut storage: Vec<Event> = Vec::new();
        let mut index: usize = 0;
        while index < EVENT_CAPACITY
            invariant
                index <= EVENT_CAPACITY,
                storage.len() == index,
            decreases EVENT_CAPACITY - index,
        {
            storage.push(Event::default());
            index = index + 1;
        }
        EventQueue { storage, head: 0, count: 0, drops: 0 }
    }

    /// Append one event, or count it as dropped when the queue is full.
    pub fn push(&mut self, event: Event)
        requires
            old(self).wf(),
        ensures
            final(self).wf(),
            final(self)@ == spec_push(old(self)@, event),
    {
        if self.count >= EVENT_CAPACITY {
            self.drops = self.drops.wrapping_add(1);
            return;
        }
        let ghost before = self@.pending;
        let slot = (self.head + self.count) % EVENT_CAPACITY;
        self.storage.set(slot, event);
        self.count = self.count + 1;
        assert(self@.pending =~= before.push(event));
        assert(self@ == spec_push(old(self)@, event));
    }

    /// Remove the oldest event into `output`; an empty queue leaves `output`
    /// unchanged and reports `false`.
    pub fn pop(&mut self, output: &mut Event) -> (popped: bool)
        requires
            old(self).wf(),
        ensures
            final(self).wf(),
            popped == (old(self)@.pending.len() > 0),
            popped ==> *final(output) == old(self)@.pending[0]
                && final(self)@.pending == old(self)@.pending.drop_first(),
            !popped ==> *final(output) == *old(output) && final(self)@ == old(self)@,
            final(self)@.drops == old(self)@.drops,
    {
        if self.count == 0 {
            return false;
        }
        let ghost before = self@.pending;
        *output = self.storage[self.head];
        self.head = (self.head + 1) % EVENT_CAPACITY;
        self.count = self.count - 1;
        assert forall|i: int| 0 <= i < self.count implies
            #[trigger] self@.pending[i] == before.drop_first()[i] by {
            assert((old(self).head + 1) % 64 == self.head);
            assert(((old(self).head + 1) % 64 + i) % 64 == (old(self).head + (i + 1)) % 64);
        }
        assert(self@.pending =~= before.drop_first());
        true
    }

    /// Events refused because the queue was full.
    pub fn drops(&self) -> (drops: u64)
        ensures
            drops == self@.drops,
    {
        self.drops
    }
}

/// Queue one generation-tagged edge.
pub fn push_edge(queue: &mut EventQueue, generation_id: u64, sample_index: u64, kind: EventKind, value: i32)
    requires
        old(queue).wf(),
    ensures
        final(queue).wf(),
        final(queue)@ == spec_push(
            old(queue)@,
            Event { generation_id, sample_index, kind: kind.spec_code(), value },
        ),
{
    let code = kind.code();
    queue.push(Event { generation_id, sample_index, kind: code, value });
}

/// Events leave the queue in the order they arrived: offering a sequence of
/// events to a queue keeps the earliest ones that fit, behind those already
/// waiting, and counts every later one as dropped.
pub proof fn lemma_fifo(model: EventQueueModel, events: Seq<Event>)
    requires
        model.pending.len() <= EVENT_CAPACITY,
    ensures
        ({
            let room = EVENT_CAPACITY - model.pending.len();
            let kept = if events.len() < room { events.len() as int } else { room };
            let result = spec_push_all(model, events);
            &&& result.pending == model.pending + events.take(kept)
            &&& result.drops as int == (model.drops as int + (events.len() - kept)) % 0x1_0000_0000_0000_0000
        }),
    decreases events.len(),
{
    let room = EVENT_CAPACITY - model.pending.len();
    if events.len() == 0 {
        assert(events.take(0) =~= Seq::<Event>::empty());
        assert(model.pending + Seq::<Event>::empty() =~= model.pending);
    } else {
        let prefix = events.drop_last();
        lemma_fifo(model, prefix);
        let kept_before = if prefix.len() < room { prefix.len() as int } else { room };
        let before = spec_push_all(model, prefix);
        if prefix.len() < room {
            assert(events.take(kept_before + 1) =~= prefix.take(kept_before).push(events.last()));
            assert(model.pending + events.take(kept_before + 1)
                =~= (model.pending + prefix.take(kept_before)).push(events.last()));
        } else {
            assert(events.take(room) =~= prefix.take(room));
        }
    }
}

/// Native receive-detector configuration selectors.  The CTCSS decoder
/// gain is a Q8 value converted from its real-valued setting by the caller.
#[derive(Clone, Copy, Debug, PartialEq, Eq, Structural)]
pub struct ReceiveConfig {
    /// Discriminator-noise profile number.
    pub noise_filter_profile: u32,
    /// Legacy MICOR squelch opening level.
    pub squelch_open_level: u32,
    /// Legacy MICOR squelch hysteresis.
    pub squelch_hysteresis: u32,
    /// VOX comparator threshold in PCM codes.
    pub vox_threshold: i32,
    /// VOX hang time in milliseconds.
    pub vox_hang_ms: i32,
    /// Numeric boolean: enable the CTCSS decoder.
    pub ctcss_enabled: u32,
    /// Configured CTCSS table indices.
    pub ctcss_tone_mask: u64,
    /// Numeric boolean: relaxed CTCSS talk-off behaviour.
    pub ctcss_relax: u32,
    /// Numeric boolean: enable the DCS decoder.
    pub dcs_enabled: u32,
    /// Legacy numeric DCS code.
    pub dcs_code: i32,
    /// Numeric boolean: inverted DCS polarity.
    pub dcs_inverted: u32,
    /// Numeric boolean: receive CPU saver.
    pub cpu_saver_enabled: u32,
    /// Native squelch delay in frames.
    pub native_squelch_delay_frames: u32,
}

/// Receiver source and qualification selectors.
#[derive(Clone, Copy, Debug, PartialEq, Eq, Structural)]
pub struct QualificationConfig {
    /// Numeric carrier-source selector.
    pub carrier_source: u32,
    /// Numeric subaudible-source selector.
    pub subaudible_source: u32,
    /// Numeric boolean: subaudible override.
    pub subaudible_override: u32,
    /// Numeric boolean: advanced transport.
    pub advanced_transport: u32,
    /// Numeric boolean: duplex radio.
    pub radio_duplex: u32,
    /// Receiver admission delay in 20 ms blocks.
    pub rx_on_delay_blocks: u32,
    /// Post-transmit delay in 20 ms blocks.
    pub tx_off_delay_blocks: u32,
}

/// A decoded receive configuration: the selected filter tables and the
/// receive-path and qualification settings built from them.
pub struct ReceiveSetup {
    /// Native-to-baseband low-pass profile.
    pub baseband: FilterProfile,
    /// Discriminator-noise profile.
    pub noise: FilterProfile,
    /// CTCSS detector low-pass profile.
    pub ctcss: FilterProfile,
    /// Fixed native stream rate.
    pub native_sample_rate_hz: u32,
    /// Largest native receive span.
    pub maximum_native_frames: u32,
    /// Legacy MICOR squelch opening level.
    pub open_level: u32,
    /// Legacy MICOR squelch hysteresis.
    pub hysteresis: u32,
    /// Whether the discriminator-noise squelch provides the carrier.
    pub noise_squelch: bool,
    /// Q8 CTCSS decoder gain.
    pub ctcss_decoder_gain: i32,
    /// Center slicer, present with CTCSS decoding.
    pub center_slicer: Option<CenterSlicerConfig>,
    /// VOX detector, present when VOX provides the carrier.
    pub vox: Option<VoxConfig>,
    /// CTCSS detector bank.
    pub ctcss_detector: Option<CtcssConfig>,
    /// DCS detector.
    pub dcs_detector: Option<DcsConfig>,
    /// Receiver qualification policy.
    pub qualification: receive_qualification::Config,
    /// Receive CPU saver enabled.
    pub cpu_saver_enabled: bool,
    /// CTCSS decoding enabled.
    pub ctcss_enabled: bool,
    /// DCS decoding enabled.
    pub dcs_enabled: bool,
}

/// Whether every receive and qualification selector is accepted.
pub open spec fn spec_receive_config_valid(rx: ReceiveConfig, gain: Result<i32, i32>, q: QualificationConfig) -> bool {
    &&& rx.noise_filter_profile <= 1
    &&& rx.ctcss_enabled <= 1
    &&& rx.dcs_enabled <= 1
    &&& rx.cpu_saver_enabled <= 1
    &&& rx.ctcss_relax <= 1
    &&& rx.dcs_inverted <= 1
    &&& gain is Ok
    &&& q.carrier_source <= 6
    &&& q.subaudible_source <= 5
    &&& q.subaudible_override <= 1
    &&& q.advanced_transport <= 1
    &&& q.radio_duplex <= 1
    &&& rx.squelch_open_level <= MAX_SIGNED_PCM_LEVEL
    &&& rx.squelch_hysteresis <= MAX_SIGNED_PCM_LEVEL
    &&& 0 <= rx.vox_threshold <= i16::MAX
    &&& 0 <= rx.vox_hang_ms <= i16::MAX
    &&& rx.ctcss_tone_mask <= VALID_CTCSS_TONE_MASK
    &&& !(rx.ctcss_enabled == 1 && rx.dcs_enabled == 1)
    &&& rx.dcs_enabled == 1 ==> spec_code_supported(rx.dcs_code)
}

impl ReceiveSetup {
    /// The receive-path configuration, borrowing this setup's tables.
    pub fn path_config(&self) -> (config: Config<'_>)
        ensures
            config.native_sample_rate_hz == self.native_sample_rate_hz,
            config.maximum_native_frames == self.maximum_native_frames,
            config.frontend.baseband_coefficients@ == self.baseband.coefficients@,
            config.frontend.baseband_calc_adjust == self.baseband.divisor,
            config.frontend.baseband_output_gain == 256,
            config.frontend.noise_coefficients@ == self.noise.coefficients@,
            config.frontend.noise_divisor == self.noise.divisor,
            config.frontend.decimate == 6,
            config.frontend.calibration_window == 960,
            config.frontend.open_level == self.open_level,
            config.frontend.hysteresis == self.hysteresis,
            config.frontend.noise_squelch == self.noise_squelch,
            config.lsd_filter.coefficients@ == self.ctcss.coefficients@,
            config.lsd_filter.input_gain == 256,
            config.lsd_filter.output_gain == self.ctcss_decoder_gain,
            config.lsd_filter.calc_adjust == self.ctcss.divisor,
            config.hpf_filter is None,
            config.center_slicer == self.center_slicer,
            config.deemphasis is None,
            config.delay is None,
            config.vox == self.vox,
            config.measurement is None,
            config.ctcss == self.ctcss_detector,
            config.dcs == self.dcs_detector,
    {
        Config {
            native_sample_rate_hz: self.native_sample_rate_hz,
            maximum_native_frames: self.maximum_native_frames,
            frontend: FrontendConfig {
                baseband_coefficients: self.baseband.coefficients.as_slice(),
                baseband_calc_adjust: self.baseband.divisor,
                baseband_output_gain: 256,
                noise_coefficients: self.noise.coefficients.as_slice(),
                noise_divisor: self.noise.divisor,
                decimate: 6,
                calibration_window: 960,
                open_level: self.open_level,
                hysteresis: self.hysteresis,
                noise_squelch: self.noise_squelch,
            },
            lsd_filter: FilterConfig {
                coefficients: self.ctcss.coefficients.as_slice(),
                input_gain: 256,
                output_gain: self.ctcss_decoder_gain,
                calc_adjust: self.ctcss.divisor,
            },
            hpf_filter: None,
            center_slicer: self.center_slicer,
            deemphasis: None,
            delay: None,
            vox: self.vox,
            measurement: None,
            ctcss: self.ctcss_detector,
            dcs: self.dcs_detector,
        }
    }
}

/// The decoded receive configuration for accepted selectors.
pub open spec fn spec_receive_setup(
    native_sample_rate_hz: u32,
    maximum_native_frames: u32,
    rx: ReceiveConfig,
    ctcss_decoder_gain: Result<i32, i32>,
    q: QualificationConfig,
    setup: ReceiveSetup,
) -> bool {
    let carrier = if q.carrier_source == 0 { CarrierSource::Ignore }
        else if q.carrier_source == 1 { CarrierSource::DspNoise }
        else if q.carrier_source == 2 { CarrierSource::DspVox }
        else if q.carrier_source == 3 { CarrierSource::Hardware }
        else if q.carrier_source == 4 { CarrierSource::HardwareInverted }
        else if q.carrier_source == 5 { CarrierSource::Parallel }
        else { CarrierSource::ParallelInverted };
    &&& setup.native_sample_rate_hz == native_sample_rate_hz
    &&& setup.maximum_native_frames == maximum_native_frames
    &&& setup.open_level == rx.squelch_open_level
    &&& setup.hysteresis == rx.squelch_hysteresis
    &&& setup.noise_squelch == (q.carrier_source == 1)
    &&& ctcss_decoder_gain == Ok::<i32, i32>(setup.ctcss_decoder_gain)
    &&& setup.baseband.divisor == crate::receive_profiles::BASEBAND_DIVISOR
    &&& setup.baseband.coefficients@ == crate::receive_profiles::spec_baseband_3khz()
    &&& setup.noise.divisor == crate::receive_profiles::NOISE_DIVISOR
    &&& setup.noise.coefficients@ == if rx.noise_filter_profile == 0 {
        crate::receive_profiles::spec_noise_standard()
    } else {
        crate::receive_profiles::spec_noise_alternate()
    }
    &&& setup.ctcss.coefficients@ == if spec_narrow_tones(rx.ctcss_tone_mask) {
        crate::receive_profiles::spec_ctcss_215hz()
    } else {
        crate::receive_profiles::spec_ctcss_250hz()
    }
    &&& setup.ctcss.divisor == if spec_narrow_tones(rx.ctcss_tone_mask) {
        crate::receive_profiles::CTCSS_NARROW_DIVISOR
    } else {
        crate::receive_profiles::CTCSS_WIDE_DIVISOR
    }
    &&& setup.center_slicer == if rx.ctcss_enabled == 1 {
        Some(CenterSlicerConfig { limit: 625, setpoint: 4_900, decay_factor: 5, trace: false })
    } else {
        None
    }
    &&& setup.vox == if q.carrier_source == 2 {
        Some(VoxConfig {
            envelope: EnvelopeConfig { decay_factor: 3, threshold: rx.vox_threshold as i16 },
            hang_time_ms: rx.vox_hang_ms,
        })
    } else {
        None
    }
    &&& setup.ctcss_detector == if rx.ctcss_enabled == 1 {
        Some(CtcssConfig { tone_mask: rx.ctcss_tone_mask, relax: rx.ctcss_relax == 1 })
    } else {
        None
    }
    &&& setup.dcs_detector == if rx.dcs_enabled == 1 {
        Some(DcsConfig { code: rx.dcs_code, inverted: rx.dcs_inverted == 1 })
    } else {
        None
    }
    &&& setup.qualification.carrier_source == carrier
    &&& setup.qualification.subaudible_source == if q.subaudible_source == 0 { SubaudibleSource::Ignore }
        else if q.subaudible_source == 1 { SubaudibleSource::Hardware }
        else if q.subaudible_source == 2 { SubaudibleSource::HardwareInverted }
        else if q.subaudible_source == 3 { SubaudibleSource::Dsp }
        else if q.subaudible_source == 4 { SubaudibleSource::Parallel }
        else { SubaudibleSource::ParallelInverted }
    &&& setup.qualification.subaudible_override == (q.subaudible_override == 1)
    &&& setup.qualification.advanced_transport == (q.advanced_transport == 1)
    &&& setup.qualification.radio_duplex == (q.radio_duplex == 1)
    &&& setup.qualification.rx_on_delay_frames == q.rx_on_delay_blocks
    &&& setup.qualification.tx_off_delay_frames == q.tx_off_delay_blocks
    &&& setup.cpu_saver_enabled == (rx.cpu_saver_enabled == 1)
    &&& setup.ctcss_enabled == (rx.ctcss_enabled == 1)
    &&& setup.dcs_enabled == (rx.dcs_enabled == 1)
}

/// Decode the receive detector and qualification configuration.
///
/// `ctcss_decoder_gain` is the outcome of converting the real-valued decoder
/// gain to Q8.  The selected carrier source decides the frontend: noise
/// squelch for the DSP source, an envelope detector for VOX.
pub fn receive_config(
    native_sample_rate_hz: u32,
    maximum_native_frames: u32,
    rx: &ReceiveConfig,
    ctcss_decoder_gain: Result<i32, i32>,
    q: &QualificationConfig,
) -> (result: Result<ReceiveSetup, i32>)
    ensures
        result is Ok <==> spec_receive_config_valid(*rx, ctcss_decoder_gain, *q),
        result matches Err(code) ==> code == INVALID_ARGUMENT,
        result matches Ok(setup) ==> spec_receive_setup(native_sample_rate_hz, maximum_native_frames, *rx, ctcss_decoder_gain, *q, setup),
{
    let noise_profile = match noise(rx.noise_filter_profile) {
        Some(profile) => profile,
        None => {
            return Err(INVALID_ARGUMENT);
        },
    };
    let ctcss_profile = ctcss(rx.ctcss_tone_mask);
    let ctcss_enabled = bool32(rx.ctcss_enabled)?;
    let dcs_enabled = bool32(rx.dcs_enabled)?;
    let cpu_saver_enabled = bool32(rx.cpu_saver_enabled)?;
    let gain = match ctcss_decoder_gain {
        Ok(gain) => gain,
        Err(_) => {
            return Err(INVALID_ARGUMENT);
        },
    };
    if rx.vox_threshold < i16::MIN as i32 || rx.vox_threshold > i16::MAX as i32 {
        return Err(INVALID_ARGUMENT);
    }
    let selected_carrier = carrier_source(q.carrier_source)?;
    let dcs_supported = code_supported(rx.dcs_code);
    let mask: u64 = rx.ctcss_tone_mask;
    let mask_outside: bool = mask & !VALID_CTCSS_TONE_MASK != 0;
    assert(mask_outside == (mask > 0x3f_ffff_ffffu64)) by (bit_vector)
        requires mask_outside == (mask & !0x3f_ffff_ffffu64 != 0);
    if rx.squelch_open_level > MAX_SIGNED_PCM_LEVEL || rx.squelch_hysteresis > MAX_SIGNED_PCM_LEVEL
        || rx.vox_threshold < 0 || rx.vox_hang_ms < 0 || rx.vox_hang_ms > i16::MAX as i32 || mask_outside
        || (ctcss_enabled && dcs_enabled) || (dcs_enabled && !dcs_supported)
    {
        return Err(INVALID_ARGUMENT);
    }
    let subaudible = subaudible_source(q.subaudible_source)?;
    let subaudible_override = bool32(q.subaudible_override)?;
    let advanced_transport = bool32(q.advanced_transport)?;
    let radio_duplex = bool32(q.radio_duplex)?;
    let relax = bool32(rx.ctcss_relax)?;
    let inverted = bool32(rx.dcs_inverted)?;
    let noise_squelch = match selected_carrier {
        CarrierSource::DspNoise => true,
        _ => false,
    };
    let vox = match selected_carrier {
        CarrierSource::DspVox => Some(VoxConfig {
            envelope: EnvelopeConfig { decay_factor: 3, threshold: rx.vox_threshold as i16 },
            hang_time_ms: rx.vox_hang_ms,
        }),
        _ => None,
    };
    Ok(ReceiveSetup {
        baseband: baseband(),
        noise: noise_profile,
        ctcss: ctcss_profile,
        native_sample_rate_hz,
        maximum_native_frames,
        open_level: rx.squelch_open_level,
        hysteresis: rx.squelch_hysteresis,
        noise_squelch,
        ctcss_decoder_gain: gain,
        center_slicer: if ctcss_enabled {
            Some(CenterSlicerConfig { limit: 625, setpoint: 4_900, decay_factor: 5, trace: false })
        } else {
            None
        },
        vox,
        ctcss_detector: if ctcss_enabled {
            Some(CtcssConfig { tone_mask: rx.ctcss_tone_mask, relax })
        } else {
            None
        },
        dcs_detector: if dcs_enabled {
            Some(DcsConfig { code: rx.dcs_code, inverted })
        } else {
            None
        },
        qualification: receive_qualification::Config {
            carrier_source: selected_carrier,
            subaudible_source: subaudible,
            subaudible_override,
            advanced_transport,
            radio_duplex,
            rx_on_delay_frames: q.rx_on_delay_blocks,
            tx_off_delay_frames: q.tx_off_delay_blocks,
        },
        cpu_saver_enabled,
        ctcss_enabled,
        dcs_enabled,
    })
}


/// Transmitter signaling selectors.  The real-valued turn-off phase and
/// tail tone, the tone levels and the output calibration are checked by the
/// caller.
#[derive(Clone, Copy, Debug, PartialEq, Eq)]
pub struct TransmitConfig {
    /// Numeric boolean: transmit CTCSS.
    pub ctcss_transmit_enabled: u32,
    /// Default transmit CTCSS selection in tenths of hertz.
    pub default_ctcss_frequency_tenths_hz: i32,
    /// Transmit CTCSS selection for each decoded receive tone.
    pub mapped_ctcss_frequency_tenths_hz: [i32; TONE_COUNT],
    /// Numeric tone-off selector.
    pub tone_off_mode: u32,
    /// CTCSS turn-off duration in milliseconds.
    pub ctcss_turnoff_duration_ms: i32,
    /// Numeric boolean: transmit DCS.
    pub dcs_transmit_enabled: u32,
    /// Numeric boolean: DCS turn-off tail.
    pub dcs_turnoff_enabled: u32,
    /// DCS turn-off duration in milliseconds.
    pub dcs_turnoff_duration_ms: i32,
    /// Receiver blanking after transmit in milliseconds.
    pub receiver_blanking_ms: i32,
    /// Transmitter settle time in milliseconds.
    pub tx_settle_time_ms: i32,
    /// Numeric boolean: transmit CPU saver.
    pub cpu_saver_enabled: u32,
    /// Legacy numeric DCS code.
    pub dcs_code: i32,
    /// Numeric boolean: inverted DCS polarity.
    pub dcs_inverted: u32,
    /// Numeric route of the first output channel.
    pub output_a_route: u32,
    /// Numeric route of the second output channel.
    pub output_b_route: u32,
}

/// Signal-mode hold applied by every transmitter.
pub const TRANSMIT_SIGNAL_MODE_HOLD_MS: i32 = 2_500;

/// A decoded transmitter configuration.
#[derive(Clone, Copy, Debug, PartialEq, Eq)]
pub struct TransmitSetup {
    /// Signaling-mode selection policy.
    pub signal_mode: SignalModeConfig,
    /// DCS turn-off timing.
    pub dcs_turnoff: DcsTurnoffConfig,
    /// CTCSS turn-off duration in milliseconds.
    pub ctcss_turnoff_duration_ms: i32,
    /// Receiver blanking after transmit in milliseconds.
    pub receiver_blanking_ms: i32,
    /// Decoded tone-off behaviour.
    pub tone_off_mode: ToneOffMode,
    /// Transmit DCS.
    pub dcs_transmit_enabled: bool,
    /// DCS turn-off tail.
    pub dcs_turnoff_enabled: bool,
    /// Transmitter settle time in milliseconds.
    pub tx_settle_time_ms: i32,
    /// Transmit CPU saver.
    pub tx_cpu_saver_enabled: bool,
    /// First output channel route.
    pub output_a: OutputRoute,
    /// Second output channel route.
    pub output_b: OutputRoute,
}

/// The route a valid numeric selector names.
pub open spec fn spec_route(value: u32) -> OutputRoute {
    if value == 0 { OutputRoute::Disabled }
    else if value == 1 { OutputRoute::Voice }
    else if value == 2 { OutputRoute::Tone }
    else if value == 3 { OutputRoute::Composite }
    else { OutputRoute::AuxiliaryVoice }
}

/// The tone-off behaviour a valid numeric selector names.
pub open spec fn spec_tone_off_mode(value: u32) -> ToneOffMode {
    if value == 0 { ToneOffMode::Immediate }
    else if value == 1 { ToneOffMode::PhaseShift }
    else if value == 2 { ToneOffMode::ToneRemove }
    else { ToneOffMode::TailTone }
}

/// Whether every transmitter selector is accepted: numeric booleans are
/// zero or one, DCS excludes CTCSS and needs a supported code, the caller's
/// level check passed, and the tone-off and route selectors are known.
pub open spec fn spec_transmit_config_valid(config: TransmitConfig, levels_valid: bool) -> bool {
    &&& config.ctcss_transmit_enabled <= 1
    &&& config.dcs_transmit_enabled <= 1
    &&& config.dcs_inverted <= 1
    &&& !(config.dcs_transmit_enabled == 1 && (config.ctcss_transmit_enabled == 1 || !spec_code_supported(config.dcs_code)))
    &&& levels_valid
    &&& config.tone_off_mode <= 3
    &&& config.dcs_turnoff_enabled <= 1
    &&& config.cpu_saver_enabled <= 1
    &&& config.output_a_route <= 4
    &&& config.output_b_route <= 4
}

/// The decoded transmitter configuration for accepted selectors.
pub open spec fn spec_transmit_setup(config: TransmitConfig) -> TransmitSetup {
    (TransmitSetup {
        signal_mode: SignalModeConfig {
            struct_size: SIGNAL_MODE_CONFIG_SIZE,
            hold_ms: TRANSMIT_SIGNAL_MODE_HOLD_MS,
            ctcss_tx_enabled: config.ctcss_transmit_enabled,
            default_tx_ctcss_frequency_tenths_hz: config.default_ctcss_frequency_tenths_hz,
            mapped_tx_ctcss_frequency_tenths_hz: config.mapped_ctcss_frequency_tenths_hz,
        },
        dcs_turnoff: DcsTurnoffConfig { turnoff_duration_ms: config.dcs_turnoff_duration_ms },
        ctcss_turnoff_duration_ms: config.ctcss_turnoff_duration_ms,
        receiver_blanking_ms: config.receiver_blanking_ms,
        tone_off_mode: spec_tone_off_mode(config.tone_off_mode),
        dcs_transmit_enabled: config.dcs_transmit_enabled == 1,
        dcs_turnoff_enabled: config.dcs_turnoff_enabled == 1,
        tx_settle_time_ms: config.tx_settle_time_ms,
        tx_cpu_saver_enabled: config.cpu_saver_enabled == 1,
        output_a: spec_route(config.output_a_route),
        output_b: spec_route(config.output_b_route),
    })
}

/// Decode the transmitter signaling configuration.
///
/// `levels_valid` reports the caller's check that the CTCSS and DCS peaks
/// are finite and within `[0, 1]`.
pub fn transmit_config(config: &TransmitConfig, levels_valid: bool) -> (result: Result<TransmitSetup, i32>)
    ensures
        result is Ok <==> spec_transmit_config_valid(*config, levels_valid),
        result matches Err(code) ==> code == INVALID_ARGUMENT,
        result matches Ok(setup) ==> setup == spec_transmit_setup(*config),
{
    let ctcss_enabled = bool32(config.ctcss_transmit_enabled)?;
    let dcs_enabled = bool32(config.dcs_transmit_enabled)?;
    let _ = bool32(config.dcs_inverted)?;
    if dcs_enabled && (ctcss_enabled || !code_supported(config.dcs_code)) || !levels_valid {
        return Err(INVALID_ARGUMENT);
    }
    let mode = tone_off_mode(config.tone_off_mode)?;
    let dcs_turnoff_enabled = bool32(config.dcs_turnoff_enabled)?;
    let tx_cpu_saver_enabled = bool32(config.cpu_saver_enabled)?;
    let output_a = OutputRoute::parse(config.output_a_route)?;
    let output_b = OutputRoute::parse(config.output_b_route)?;
    Ok(TransmitSetup {
        signal_mode: SignalModeConfig {
            struct_size: SIGNAL_MODE_CONFIG_SIZE,
            hold_ms: TRANSMIT_SIGNAL_MODE_HOLD_MS,
            ctcss_tx_enabled: config.ctcss_transmit_enabled,
            default_tx_ctcss_frequency_tenths_hz: config.default_ctcss_frequency_tenths_hz,
            mapped_tx_ctcss_frequency_tenths_hz: config.mapped_ctcss_frequency_tenths_hz,
        },
        dcs_turnoff: DcsTurnoffConfig { turnoff_duration_ms: config.dcs_turnoff_duration_ms },
        ctcss_turnoff_duration_ms: config.ctcss_turnoff_duration_ms,
        receiver_blanking_ms: config.receiver_blanking_ms,
        tone_off_mode: mode,
        dcs_transmit_enabled: dcs_enabled,
        dcs_turnoff_enabled,
        tx_settle_time_ms: config.tx_settle_time_ms,
        tx_cpu_saver_enabled,
        output_a,
        output_b,
    })
}

} // verus!
