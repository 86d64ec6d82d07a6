//! Signaling-tick bookkeeping: hardware snapshots, end-of-tick edge
//! accumulation, the signaling-mode mapping at the qualification boundary,
//! and the drift-free periodic status clock.

use vstd::prelude::*;
use crate::receive_qualification::SignalMode;
use crate::signal_mode::{MODE_CTCSS, MODE_DCS, MODE_NONE};
use crate::timer::FRAMES_PER_MILLISECOND;

verus! {

/// Default periodic status cadence, independent of audio callback partitioning.
pub const DEFAULT_PUBLICATION_INTERVAL_MS: u32 = 50;

/// Hardware and control values held stable for one adapter-supplied tick.
#[derive(Clone, Copy, Debug, PartialEq, Eq, Structural)]
pub struct Inputs {
    /// Normal-polarity CM119/HID carrier snapshot.
    pub hardware_carrier: bool,
    /// Normal-polarity parallel-port carrier snapshot.
    pub parallel_carrier: bool,
    /// Normal-polarity CM119/HID CTCSS snapshot.
    pub hardware_subaudible: bool,
    /// Normal-polarity parallel-port CTCSS snapshot.
    pub parallel_subaudible: bool,
    /// Current external request to transmit program audio.
    pub external_ptt_request: bool,
    /// Physical PTT completion published by the hardware worker.
    pub physical_ptt_applied: bool,
    /// A matching DAC span has been admitted for transmitter rendering.
    pub tx_render_admitted: bool,
    /// Transient control inhibiting CTCSS transmission.
    pub ctcss_inhibit: bool,
}

impl Default for Inputs {
    fn default() -> (inputs: Self)
        ensures
            !inputs.hardware_carrier && !inputs.parallel_carrier && !inputs.hardware_subaudible
                && !inputs.parallel_subaudible && !inputs.external_ptt_request
                && !inputs.physical_ptt_applied && !inputs.tx_render_admitted
                && !inputs.ctcss_inhibit,
    {
        Inputs {
            hardware_carrier: false,
            parallel_carrier: false,
            hardware_subaudible: false,
            parallel_subaudible: false,
            external_ptt_request: false,
            physical_ptt_applied: false,
            tx_render_admitted: false,
            ctcss_inhibit: false,
        }
    }
}

/// Status transitions to publish immediately after the detecting tick.
#[derive(Clone, Copy, Debug, PartialEq, Eq, Structural)]
pub struct Edges {
    /// The resolved carrier indication changed.
    pub carrier: bool,
    /// The resolved subaudible indication changed.
    pub subaudible: bool,
    /// Qualified receiver keying changed.
    pub receiver_keyed: bool,
    /// The decoded CTCSS tone changed, including loss of tone.
    pub ctcss: bool,
    /// DCS decoder validity changed.
    pub dcs: bool,
    /// Logical PTT intent changed.
    pub ptt: bool,
}

impl Default for Edges {
    fn default() -> (edges: Self)
        ensures
            edges == spec_no_edges(),
    {
        Edges { carrier: false, subaudible: false, receiver_keyed: false, ctcss: false, dcs: false, ptt: false }
    }
}

/// No signal changed.
pub open spec fn spec_no_edges() -> Edges {
    Edges { carrier: false, subaudible: false, receiver_keyed: false, ctcss: false, dcs: false, ptt: false }
}

/// Input/setup failures and an unexpected violation of a composed invariant.
#[derive(Clone, Copy, Debug, PartialEq, Eq, Structural)]
pub enum Error {
    /// An immutable profile or publication interval is invalid.
    InvalidConfiguration,
    /// Empty, oversized, non-stereo, or non-finite native PCM input.
    InvalidInput,
    /// A validated component rejected its owned state.
    ComponentInvariant,
}

/// Map any failure of a validated component to the composition's common error.
pub fn component_invariant<T>(_failure: T) -> (error: Error)
    ensures
        error == Error::ComponentInvariant,
{
    Error::ComponentInvariant
}

/// Preserve all historical signaling-mode labels at the qualification boundary.
pub fn qualification_mode(mode: i32) -> (label: SignalMode)
    ensures
        mode == MODE_NONE ==> label == SignalMode::Inactive,
        mode == MODE_CTCSS ==> label == SignalMode::Ctcss,
        mode == MODE_DCS ==> label == SignalMode::Dcs,
        mode != MODE_NONE && mode != MODE_CTCSS && mode != MODE_DCS ==> label == SignalMode::Other,
{
    if mode == MODE_NONE {
        SignalMode::Inactive
    } else if mode == MODE_CTCSS {
        SignalMode::Ctcss
    } else if mode == MODE_DCS {
        SignalMode::Dcs
    } else {
        SignalMode::Other
    }
}

/// Last status values used only to derive end-of-tick edge notifications.
#[derive(Clone, Copy, Debug, PartialEq, Eq, Structural)]
pub struct Status {
    /// Resolved carrier indication.
    pub carrier: bool,
    /// Resolved subaudible indication.
    pub subaudible: bool,
    /// Qualified receiver keying.
    pub receiver_keyed: bool,
    /// Decoded CTCSS table index, or `-1`.
    pub ctcss: i16,
    /// DCS decoder validity.
    pub dcs: bool,
    /// Logical PTT intent.
    pub ptt: bool,
}

impl Default for Status {
    fn default() -> (status: Self)
        ensures
            status == (Status { carrier: false, subaudible: false, receiver_keyed: false, ctcss: -1i16, dcs: false, ptt: false }),
    {
        Status { carrier: false, subaudible: false, receiver_keyed: false, ctcss: -1, dcs: false, ptt: false }
    }
}

/// Which signals differ between two snapshots.
pub open spec fn spec_edges_between(current: Status, previous: Status) -> Edges {
    Edges {
        carrier: current.carrier != previous.carrier,
        subaudible: current.subaudible != previous.subaudible,
        receiver_keyed: current.receiver_keyed != previous.receiver_keyed,
        ctcss: current.ctcss != previous.ctcss,
        dcs: current.dcs != previous.dcs,
        ptt: current.ptt != previous.ptt,
    }
}

/// Signal-by-signal disjunction of two edge sets.
pub open spec fn spec_edges_or(a: Edges, b: Edges) -> Edges {
    Edges {
        carrier: a.carrier || b.carrier,
        subaudible: a.subaudible || b.subaudible,
        receiver_keyed: a.receiver_keyed || b.receiver_keyed,
        ctcss: a.ctcss || b.ctcss,
        dcs: a.dcs || b.dcs,
        ptt: a.ptt || b.ptt,
    }
}

impl Status {
    /// Compare successive snapshots without retaining a callback event queue.
    pub fn edges_from(self, previous: Self) -> (edges: Edges)
        ensures
            edges == spec_edges_between(self, previous),
    {
        Edges {
            carrier: self.carrier != previous.carrier,
            subaudible: self.subaudible != previous.subaudible,
            receiver_keyed: self.receiver_keyed != previous.receiver_keyed,
            ctcss: self.ctcss != previous.ctcss,
            dcs: self.dcs != previous.dcs,
            ptt: self.ptt != previous.ptt,
        }
    }

    /// Retain all changed signals even if they return to their initial value.
    pub fn accumulate(self, previous: &mut Self, edges: &mut Edges)
        ensures
            *final(previous) == self,
            *final(edges) == spec_edges_or(*old(edges), spec_edges_between(self, *old(previous))),
    {
        let changed = self.edges_from(*previous);
        edges.carrier = edges.carrier || changed.carrier;
        edges.subaudible = edges.subaudible || changed.subaudible;
        edges.receiver_keyed = edges.receiver_keyed || changed.receiver_keyed;
        edges.ctcss = edges.ctcss || changed.ctcss;
        edges.dcs = edges.dcs || changed.dcs;
        edges.ptt = edges.ptt || changed.ptt;
        *previous = self;
    }
}

/// Edges accumulated over a sequence of per-sample snapshots that follow
/// `start`.
pub open spec fn spec_accumulated(start: Status, statuses: Seq<Status>) -> Edges
    decreases statuses.len(),
{
    if statuses.len() == 0 {
        spec_no_edges()
    } else {
        let before = if statuses.len() == 1 { start } else { statuses[statuses.len() - 2] };
        spec_edges_or(
            spec_accumulated(start, statuses.drop_last()),
            spec_edges_between(statuses.last(), before),
        )
    }
}

/// The snapshot that precedes position `i` of a tick.
pub open spec fn spec_before(start: Status, statuses: Seq<Status>, i: int) -> Status {
    if i == 0 { start } else { statuses[i - 1] }
}

/// Signal `field` of an edge set: carrier, subaudible, receiver keying,
/// CTCSS, DCS and PTT in that order.
pub open spec fn spec_edge(edges: Edges, field: int) -> bool {
    if field == 0 { edges.carrier }
    else if field == 1 { edges.subaudible }
    else if field == 2 { edges.receiver_keyed }
    else if field == 3 { edges.ctcss }
    else if field == 4 { edges.dcs }
    else { edges.ptt }
}

/// Whether signal `field` changed at position `i` of a tick.
pub open spec fn spec_changed_at(start: Status, statuses: Seq<Status>, i: int, field: int) -> bool {
    spec_edge(spec_edges_between(statuses[i], spec_before(start, statuses, i)), field)
}

/// A signal is reported changed over a tick exactly when some snapshot in
/// it differs from the one before, even if the tick ends where it started.
pub proof fn lemma_accumulated_edge(start: Status, statuses: Seq<Status>, field: int)
    ensures
        spec_edge(spec_accumulated(start, statuses), field) <==> exists|i: int|
            0 <= i < statuses.len() && #[trigger] spec_changed_at(start, statuses, i, field),
    decreases statuses.len(),
{
    if statuses.len() == 0 {
        assert(spec_accumulated(start, statuses) == spec_no_edges());
        assert(!spec_edge(spec_no_edges(), field));
    } else {
        let prefix = statuses.drop_last();
        let last = statuses.len() - 1;
        lemma_accumulated_edge(start, prefix, field);
        assert forall|i: int| 0 <= i < prefix.len() implies
            #[trigger] spec_changed_at(start, prefix, i, field) == spec_changed_at(start, statuses, i, field) by {
            assert(prefix[i] == statuses[i]);
            if i > 0 {
                assert(prefix[i - 1] == statuses[i - 1]);
            }
        }
        assert(spec_before(start, statuses, last) == if statuses.len() == 1 { start } else { statuses[statuses.len() - 2] });
        let a = spec_accumulated(start, prefix);
        let b = spec_edges_between(statuses[last], spec_before(start, statuses, last));
        assert(spec_accumulated(start, statuses) == spec_edges_or(a, b));
        assert(spec_edge(spec_edges_or(a, b), field) == (spec_edge(a, field) || spec_edge(b, field)));
        assert(spec_changed_at(start, statuses, last, field) == spec_edge(b, field));
        if spec_edge(b, field) {
            assert(spec_changed_at(start, statuses, last, field));
        }
        if spec_edge(spec_accumulated(start, prefix), field) {
            let i = choose|i: int| 0 <= i < prefix.len() && #[trigger] spec_changed_at(start, prefix, i, field);
            assert(spec_changed_at(start, statuses, i, field));
        }
        if exists|i: int| 0 <= i < statuses.len() && #[trigger] spec_changed_at(start, statuses, i, field) {
            let i = choose|i: int| 0 <= i < statuses.len() && #[trigger] spec_changed_at(start, statuses, i, field);
            if i < last {
                assert(spec_changed_at(start, prefix, i, field));
            }
        }
    }
}

/// Periodic status deadline counted in native frames.
#[derive(Clone, Copy, Debug, PartialEq, Eq, Structural)]
pub struct PublicationClock {
    /// Frames between deadlines.
    pub interval_frames: u64,
    /// Frames until the next deadline.
    pub remaining_frames: u64,
}

/// Frames elapsed since the last deadline.
pub open spec fn spec_phase(clock: PublicationClock) -> int {
    clock.interval_frames - clock.remaining_frames
}

impl PublicationClock {
    /// Clock invariant: the next deadline lies within one interval.
    pub open spec fn wf(self) -> bool {
        0 < self.remaining_frames <= self.interval_frames
    }

    /// A clock whose first deadline is one interval away.
    pub fn new(interval_ms: u32) -> (clock: Result<Self, Error>)
        ensures
            interval_ms == 0 ==> clock == Err::<PublicationClock, Error>(Error::InvalidConfiguration),
            interval_ms > 0 ==> (clock matches Ok(c) && c.wf()
                && c.interval_frames == interval_ms * FRAMES_PER_MILLISECOND
                && c.remaining_frames == c.interval_frames),
    {
        if interval_ms == 0 {
            return Err(Error::InvalidConfiguration);
        }
        assert(interval_ms as u64 * 48 <= 0xffff_ffff * 48) by (nonlinear_arith)
            requires interval_ms <= 0xffff_ffff;
        let interval_frames = interval_ms as u64 * FRAMES_PER_MILLISECOND as u64;
        Ok(PublicationClock { interval_frames, remaining_frames: interval_frames })
    }

    /// Advance by one span; report whether a deadline was reached within it.
    ///
    /// The deadline stays on its fixed grid: the frames since the last
    /// deadline advance modulo the interval.
    pub fn advance(&mut self, native_frames: u32) -> (due: bool)
        requires
            old(self).wf(),
        ensures
            final(self).wf(),
            final(self).interval_frames == old(self).interval_frames,
            due == (native_frames >= old(self).remaining_frames),
            spec_phase(*final(self)) == (spec_phase(*old(self)) + native_frames) % (old(self).interval_frames as int),
    {
        let frames = native_frames as u64;
        if frames < self.remaining_frames {
            proof {
                vstd::arithmetic::div_mod::lemma_small_mod(
                    (spec_phase(*self) + native_frames) as nat, self.interval_frames as nat);
            }
            self.remaining_frames = self.remaining_frames - frames;
            return false;
        }
        let overshoot = frames - self.remaining_frames;
        let ghost old_phase = spec_phase(*self);
        proof {
            let i = self.interval_frames as int;
            vstd::arithmetic::div_mod::lemma_mod_add_multiples_vanish(overshoot as int, i);
            assert(old_phase + native_frames == overshoot + i);
        }
        self.remaining_frames = self.interval_frames - overshoot % self.interval_frames;
        true
    }
}

/// Advancing the clock by two spans reaches the same deadline phase as
/// advancing it once by their total: callback partitioning cannot drift it.
pub proof fn lemma_publication_partition(phase: int, first: int, second: int, interval: int)
    requires
        interval > 0,
        0 <= phase < interval,
        first >= 0,
        second >= 0,
    ensures
        ((phase + first) % interval + second) % interval == (phase + first + second) % interval,
{
    vstd::arithmetic::div_mod::lemma_add_mod_noop(phase + first, second, interval);
    vstd::arithmetic::div_mod::lemma_mod_twice(second, interval);
    vstd::arithmetic::div_mod::lemma_add_mod_noop((phase + first) % interval, second, interval);
    vstd::arithmetic::div_mod::lemma_mod_twice(phase + first, interval);
}

} // verus!
