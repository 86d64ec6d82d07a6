//! Legacy-compatible CTCSS center slicer on signed-16 PCM codes.
//!
//! The filtered low-speed-data signal is centered before the CTCSS detector
//! reads it.  A min/max tracker follows the signal's extrema with a set
//! point and a per-sample discharge; the centered sample is the input less
//! the extrema midpoint, and the limited sample clamps it to `±limit`.  Both
//! outputs receive the value after its signed-16 assignment, not the wider
//! accumulator used for the tracker.

use vstd::prelude::*;
use crate::fixed_point::{lemma_machine_div, trunc_div};

verus! {

/// Caller-owned state for one legacy-compatible center slicer.
#[derive(Clone, Copy, Debug, PartialEq, Eq, Structural)]
pub struct State {
    /// Current positive input extremum in legacy PCM codes.
    pub maximum: i16,
    /// Current negative input extremum in legacy PCM codes.
    pub minimum: i16,
    /// Most recent half peak-to-peak envelope in legacy PCM codes.
    pub peak: i16,
    /// Retained compatibility upper detector counter.
    pub upper_decay_counter: i32,
    /// Retained compatibility lower detector counter.
    pub lower_decay_counter: i32,
}

impl Default for State {
    fn default() -> (state: Self)
        ensures
            state == (State { maximum: 0, minimum: 0, peak: 0, upper_decay_counter: 0, lower_decay_counter: 0 }),
    {
        State { maximum: 0, minimum: 0, peak: 0, upper_decay_counter: 0, lower_decay_counter: 0 }
    }
}

/// Tracker values carried between samples within one span.
pub struct Tracker {
    /// Positive extremum.
    pub maximum: i32,
    /// Negative extremum.
    pub minimum: i32,
    /// Half peak-to-peak envelope.
    pub peak: i32,
}

/// Capture a new extremum, dragging the opposite one within `setpoint`.
pub open spec fn spec_capture(maximum: i32, minimum: i32, x: i32, setpoint: i32) -> (i32, i32) {
    if x > maximum {
        let low_bound = x.wrapping_sub(setpoint);
        (x, if minimum < low_bound { low_bound } else { minimum })
    } else if x < minimum {
        let high_bound = x.wrapping_add(setpoint);
        (if maximum > high_bound { high_bound } else { maximum }, x)
    } else {
        (maximum, minimum)
    }
}

/// Discharge both extrema toward each other by `decay`, never crossing.
pub open spec fn spec_discharge(maximum: i32, minimum: i32, decay: i32) -> (i32, i32) {
    let lowered = maximum.wrapping_sub(decay);
    let maximum = if lowered < minimum { minimum } else { lowered };
    let raised = minimum.wrapping_add(decay);
    (maximum, if raised > maximum { maximum } else { raised })
}

/// The tracker after one input sample.
#[verifier::opaque]
pub open spec fn spec_track(tracker: Tracker, x: i32, setpoint: i32, decay: i32) -> Tracker {
    let (captured_max, captured_min) = spec_capture(tracker.maximum, tracker.minimum, x, setpoint);
    let (maximum, minimum) = spec_discharge(captured_max, captured_min, decay);
    Tracker { maximum, minimum, peak: trunc_div(maximum.wrapping_sub(minimum) as int, 2) as i32 }
}

/// The input less the tracker's midpoint, in the accumulator width.
pub open spec fn spec_centered_wide(tracker: Tracker, x: i32) -> i32 {
    x.wrapping_sub(trunc_div(tracker.maximum.wrapping_add(tracker.minimum) as int, 2) as i32)
}

/// Clamp a centered value to `±limit` (with the legacy wrapping negation of the limit).
pub open spec fn spec_limit(value: i32, limit: i32) -> i32 {
    if value > limit {
        limit
    } else if value < 0i32.wrapping_sub(limit) {
        0i32.wrapping_sub(limit)
    } else {
        value
    }
}

/// The tracker after the first `count` samples of a span.
pub open spec fn spec_tracker_after(start: Tracker, input: Seq<i16>, setpoint: i32, decay: i32, count: int) -> Tracker
    decreases count,
{
    if count <= 0 {
        start
    } else {
        spec_track(spec_tracker_after(start, input, setpoint, decay, count - 1), input[count - 1] as i32, setpoint, decay)
    }
}

/// The tracker at the start of a span, widened from the persisted state.
pub open spec fn spec_start(state: State) -> Tracker {
    Tracker { maximum: state.maximum as i32, minimum: state.minimum as i32, peak: state.peak as i32 }
}

/// The centered sample `k` of a span, in the accumulator width.
pub open spec fn spec_centered_at(state: State, input: Seq<i16>, setpoint: i32, decay: i32, k: int) -> i32 {
    spec_centered_wide(spec_tracker_after(spec_start(state), input, setpoint, decay, k + 1), input[k] as i32)
}

/// The legacy diagnostic trace value: lower and upper extrema alternate in
/// groups of eight samples.
pub open spec fn spec_trace_value(tracker: Tracker, phase: u32) -> i16 {
    if (phase / 8) % 2 == 1 { tracker.maximum as i16 } else { tracker.minimum as i16 }
}

/// The persisted state after a span: extrema and peak truncated to signed
/// 16 bits, counters untouched.
pub open spec fn spec_end_state(state: State, tracker: Tracker) -> State {
    State {
        maximum: tracker.maximum as i16,
        minimum: tracker.minimum as i16,
        peak: tracker.peak as i16,
        upper_decay_counter: state.upper_decay_counter,
        lower_decay_counter: state.lower_decay_counter,
    }
}

/// Track one sample and center it.
fn slice_sample(maximum: i32, minimum: i32, peak: i32, x: i32, setpoint: i32, decay: i32) -> (result: (i32, i32, i32, i32))
    ensures
        ({
            let tracker = spec_track(Tracker { maximum: maximum, minimum: minimum, peak: peak }, x, setpoint, decay);
            &&& result.0 == tracker.maximum
            &&& result.1 == tracker.minimum
            &&& result.2 == tracker.peak
            &&& result.3 == spec_centered_wide(tracker, x)
        }),
{
    let mut maximum = maximum;
    let mut minimum = minimum;
    if x > maximum {
        maximum = x;
        if minimum < maximum.wrapping_sub(setpoint) {
            minimum = maximum.wrapping_sub(setpoint);
        }
    } else if x < minimum {
        minimum = x;
        if maximum > minimum.wrapping_add(setpoint) {
            maximum = minimum.wrapping_add(setpoint);
        }
    }
    maximum = maximum.wrapping_sub(decay);
    if maximum < minimum {
        maximum = minimum;
    }
    minimum = minimum.wrapping_add(decay);
    if minimum > maximum {
        minimum = maximum;
    }
    let half_range: i32 = maximum.wrapping_sub(minimum) / 2;
    let center: i32 = maximum.wrapping_add(minimum) / 2;
    proof {
        lemma_machine_div(maximum.wrapping_sub(minimum) as int, 2);
        lemma_machine_div(maximum.wrapping_add(minimum) as int, 2);
        reveal(spec_track);
    }
    (maximum, minimum, half_range, x.wrapping_sub(center))
}

/// Center and limit one span, optionally recording the extrema trace.
///
/// `trace_phase` is the persistent pre-sample trace counter; it advances
/// once per sample only when `tracing`.
#[verifier::rlimit(40)]
pub fn process_with_trace(
    input: &[i16],
    centered_output: &mut Vec<i16>,
    limited_output: &mut Vec<i16>,
    limit: i32,
    setpoint: i16,
    decay_factor: i32,
    state: &mut State,
    tracing: bool,
    trace_output: &mut Vec<i16>,
    trace_phase: &mut u32,
)
    requires
        old(centered_output).len() == input.len(),
        old(limited_output).len() == input.len(),
        tracing ==> old(trace_output).len() == input.len(),
    ensures
        *final(state) == spec_end_state(
            *old(state),
            spec_tracker_after(spec_start(*old(state)), input@, setpoint as i32, decay_factor, input.len() as int),
        ),
        final(centered_output)@.len() == input.len(),
        final(limited_output)@.len() == input.len(),
        forall|k: int| 0 <= k < input.len() ==> #[trigger] final(centered_output)@[k]
            == spec_centered_at(*old(state), input@, setpoint as i32, decay_factor, k) as i16,
        forall|k: int| 0 <= k < input.len() ==> #[trigger] final(limited_output)@[k]
            == spec_limit(spec_centered_at(*old(state), input@, setpoint as i32, decay_factor, k), limit) as i16,
        tracing ==> final(trace_output)@.len() == input.len(),
        tracing ==> *final(trace_phase) == old(trace_phase).wrapping_add(input.len() as u32),
        tracing ==> forall|k: int| 0 <= k < input.len() ==> #[trigger] final(trace_output)@[k]
            == spec_trace_value(
                spec_tracker_after(spec_start(*old(state)), input@, setpoint as i32, decay_factor, k + 1),
                old(trace_phase).wrapping_add(k as u32),
            ),
        !tracing ==> final(trace_output)@ == old(trace_output)@,
        !tracing ==> *final(trace_phase) == *old(trace_phase),
{
    let ghost start = spec_start(*state);
    let ghost first_phase = *trace_phase;
    let mut maximum: i32 = state.maximum as i32;
    let mut minimum: i32 = state.minimum as i32;
    let mut peak: i32 = state.peak as i32;
    let setpoint_wide: i32 = setpoint as i32;
    let mut index: usize = 0;
    while index < input.len()
        invariant
            index <= input.len(),
            centered_output.len() == input.len(),
            limited_output.len() == input.len(),
            tracing ==> trace_output.len() == input.len(),
            !tracing ==> trace_output@ == old(trace_output)@ && *trace_phase == first_phase,
            tracing ==> *trace_phase == first_phase.wrapping_add(index as u32),
            first_phase == *old(trace_phase),
            start == spec_start(*old(state)),
            setpoint_wide == setpoint as i32,
            (Tracker { maximum, minimum, peak }) == spec_tracker_after(start, input@, setpoint_wide, decay_factor, index as int),
            forall|k: int| 0 <= k < index ==> #[trigger] centered_output@[k]
                == spec_centered_at(*old(state), input@, setpoint_wide, decay_factor, k) as i16,
            forall|k: int| 0 <= k < index ==> #[trigger] limited_output@[k]
                == spec_limit(spec_centered_at(*old(state), input@, setpoint_wide, decay_factor, k), limit) as i16,
            tracing ==> forall|k: int| 0 <= k < index ==> #[trigger] trace_output@[k] == spec_trace_value(
                spec_tracker_after(start, input@, setpoint_wide, decay_factor, k + 1),
                first_phase.wrapping_add(k as u32),
            ),
        decreases input.len() - index,
    {
        let x: i32 = input[index] as i32;
        let (next_maximum, next_minimum, next_peak, wide) = slice_sample(maximum, minimum, peak, x, setpoint_wide, decay_factor);
        maximum = next_maximum;
        minimum = next_minimum;
        peak = next_peak;
        centered_output.set(index, wide as i16);
        let limited: i32 = if wide > limit {
            limit
        } else if wide < 0i32.wrapping_sub(limit) {
            0i32.wrapping_sub(limit)
        } else {
            wide
        };
        limited_output.set(index, limited as i16);
        if tracing {
            let trace_value: i16 = if (*trace_phase / 8) % 2 == 1 { maximum as i16 } else { minimum as i16 };
            trace_output.set(index, trace_value);
            *trace_phase = trace_phase.wrapping_add(1);
            proof {
                let low: u32 = index as u32;
                assert(first_phase.wrapping_add(low).wrapping_add(1) == first_phase.wrapping_add(
                    low.wrapping_add(1))) by (bit_vector);
                assert(((index + 1) as u32) == low.wrapping_add(1)) by (bit_vector)
                    requires low == index as u32;
            }
        }
        index = index + 1;
    }
    state.maximum = maximum as i16;
    state.minimum = minimum as i16;
    state.peak = peak as i16;
}

/// Center and limit one span without the diagnostic trace.
pub fn process(
    input: &[i16],
    centered_output: &mut Vec<i16>,
    limited_output: &mut Vec<i16>,
    limit: i32,
    setpoint: i16,
    decay_factor: i32,
    state: &mut State,
)
    requires
        old(centered_output).len() == input.len(),
        old(limited_output).len() == input.len(),
    ensures
        ({
            let start = spec_start(*old(state));
            let setpoint = setpoint as i32;
            &&& *final(state) == spec_end_state(
                *old(state),
                spec_tracker_after(start, input@, setpoint, decay_factor, input.len() as int),
            )
            &&& final(centered_output)@.len() == input.len()
            &&& final(limited_output)@.len() == input.len()
        }),
        forall|k: int| 0 <= k < input.len() ==> #[trigger] final(centered_output)@[k]
            == spec_centered_at(*old(state), input@, setpoint as i32, decay_factor, k) as i16,
        forall|k: int| 0 <= k < input.len() ==> #[trigger] final(limited_output)@[k]
            == spec_limit(spec_centered_at(*old(state), input@, setpoint as i32, decay_factor, k), limit) as i16,
{
    let mut unused_trace: Vec<i16> = Vec::new();
    let mut unused_phase: u32 = 0;
    process_with_trace(
        input,
        centered_output,
        limited_output,
        limit,
        setpoint,
        decay_factor,
        state,
        false,
        &mut unused_trace,
        &mut unused_phase,
    );
}

/// Tracker values that survive the signed-16 state between spans unchanged.
pub open spec fn spec_fits_state(tracker: Tracker) -> bool {
    &&& i16::MIN <= tracker.maximum <= i16::MAX
    &&& i16::MIN <= tracker.minimum <= i16::MAX
    &&& i16::MIN <= tracker.peak <= i16::MAX
}

/// Spans that agree on a prefix track the same extrema over it.
proof fn lemma_tracker_prefix(start: Tracker, a: Seq<i16>, b: Seq<i16>, setpoint: i32, decay: i32, count: int)
    requires
        0 <= count <= a.len(),
        count <= b.len(),
        forall|i: int| 0 <= i < count ==> a[i] == b[i],
    ensures
        spec_tracker_after(start, a, setpoint, decay, count) == spec_tracker_after(start, b, setpoint, decay, count),
    decreases count,
{
    if count > 0 {
        lemma_tracker_prefix(start, a, b, setpoint, decay, count - 1);
    }
}

/// Continuing from the tracker after a first part tracks the rest of a span.
proof fn lemma_tracker_continues(
    start: Tracker,
    first: Seq<i16>,
    second: Seq<i16>,
    setpoint: i32,
    decay: i32,
    k: int,
)
    requires
        0 <= k <= second.len(),
    ensures
        spec_tracker_after(
            spec_tracker_after(start, first, setpoint, decay, first.len() as int),
            second,
            setpoint,
            decay,
            k,
        ) == spec_tracker_after(start, first + second, setpoint, decay, first.len() + k),
    decreases k,
{
    if k == 0 {
        lemma_tracker_prefix(start, first, first + second, setpoint, decay, first.len() as int);
    } else {
        lemma_tracker_continues(start, first, second, setpoint, decay, k - 1);
        assert((first + second)[first.len() + k - 1] == second[k - 1]);
    }
}

/// Slicing a span in two parts gives the same outputs and final state as
/// slicing it whole, whenever the extrema at the split fit the signed-16
/// state that carries them between the parts.
pub proof fn lemma_span_partition(state: State, first: Seq<i16>, second: Seq<i16>, setpoint: i32, decay: i32)
    requires
        spec_fits_state(spec_tracker_after(spec_start(state), first, setpoint, decay, first.len() as int)),
    ensures
        ({
            let whole = first + second;
            let middle = spec_end_state(state, spec_tracker_after(spec_start(state), first, setpoint, decay, first.len() as int));
            &&& spec_end_state(middle, spec_tracker_after(spec_start(middle), second, setpoint, decay, second.len() as int))
                == spec_end_state(state, spec_tracker_after(spec_start(state), whole, setpoint, decay, whole.len() as int))
            &&& forall|k: int| 0 <= k < first.len() ==> #[trigger] spec_centered_at(state, first, setpoint, decay, k)
                == spec_centered_at(state, whole, setpoint, decay, k)
            &&& forall|k: int| 0 <= k < second.len() ==> #[trigger] spec_centered_at(middle, second, setpoint, decay, k)
                == spec_centered_at(state, whole, setpoint, decay, first.len() + k)
        }),
{
    let whole = first + second;
    let tracker = spec_tracker_after(spec_start(state), first, setpoint, decay, first.len() as int);
    let middle = spec_end_state(state, tracker);
    assert(spec_start(middle) == tracker);
    lemma_tracker_continues(spec_start(state), first, second, setpoint, decay, second.len() as int);
    assert forall|k: int| 0 <= k < first.len() implies #[trigger] spec_centered_at(state, first, setpoint, decay, k)
        == spec_centered_at(state, whole, setpoint, decay, k) by {
        lemma_tracker_prefix(spec_start(state), first, whole, setpoint, decay, k + 1);
        assert(whole[k] == first[k]);
    }
    assert forall|k: int| 0 <= k < second.len() implies #[trigger] spec_centered_at(middle, second, setpoint, decay, k)
        == spec_centered_at(state, whole, setpoint, decay, first.len() + k) by {
        lemma_tracker_continues(spec_start(state), first, second, setpoint, decay, k + 1);
        assert(whole[first.len() + k] == second[k]);
    }
}

} // verus!
