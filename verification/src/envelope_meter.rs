//! Legacy-compatible decaying peak envelope on signed-16 PCM codes.
//!
//! The compact detector behind VOX qualification and tuning measurements:
//! each extremum follows a new peak immediately and otherwise decays by
//! `32700/32768` once every `decay_factor` samples.  The reported peak is
//! half the peak-to-peak envelope after the span's final sample.

use vstd::prelude::*;
use crate::fixed_point::{lemma_machine_div, trunc_div};

verus! {

/// Numerator of the per-step envelope decay.
pub const ENVELOPE_DECAY_NUMERATOR: i32 = 32_700;
/// Denominator of the per-step envelope decay.
pub const ENVELOPE_DECAY_DENOMINATOR: i32 = 32_768;

/// Caller-owned state for one legacy-compatible envelope detector.
#[derive(Clone, Copy, Debug, PartialEq, Eq, Structural)]
pub struct State {
    /// Current positive envelope extremum in legacy PCM codes.
    pub maximum: i16,
    /// Current negative envelope extremum in legacy PCM codes.
    pub minimum: i16,
    /// Most recent half peak-to-peak envelope in legacy PCM codes.
    pub peak: i16,
    /// Samples remaining before positive-envelope decay.
    pub upper_decay_counter: i32,
    /// Samples remaining before negative-envelope decay.
    pub lower_decay_counter: i32,
}

impl Default for State {
    fn default() -> (state: Self)
        ensures
            state == (State { maximum: 0, minimum: 0, peak: 0, upper_decay_counter: 0, lower_decay_counter: 0 }),
    {
        State { maximum: 0, minimum: 0, peak: 0, upper_decay_counter: 0, lower_decay_counter: 0 }
    }
}

/// One decay step of an extremum.
pub open spec fn spec_decayed(extremum: i16) -> i16 {
    trunc_div(extremum * ENVELOPE_DECAY_NUMERATOR, ENVELOPE_DECAY_DENOMINATOR as int) as i16
}

/// One extremum and its counter after a sample; `rises` tells whether the
/// sample beyond the extremum replaces it.
pub open spec fn spec_follow(extremum: i16, counter: i32, rises: bool, sample: i16, decay_factor: i32) -> (i16, i32) {
    if rises {
        (sample, decay_factor)
    } else {
        let counted = counter.wrapping_sub(1);
        if counted <= 0 { (spec_decayed(extremum), decay_factor) } else { (extremum, counted) }
    }
}

/// Half the peak-to-peak envelope.
pub open spec fn spec_peak(maximum: i16, minimum: i16) -> i16 {
    trunc_div(maximum - minimum, 2) as i16
}

/// The state after one sample.
pub open spec fn spec_step(state: State, sample: i16, decay_factor: i32) -> State {
    let (maximum, upper) = spec_follow(state.maximum, state.upper_decay_counter, sample > state.maximum, sample, decay_factor);
    let (minimum, lower) = spec_follow(state.minimum, state.lower_decay_counter, sample < state.minimum, sample, decay_factor);
    State { maximum, minimum, peak: spec_peak(maximum, minimum), upper_decay_counter: upper, lower_decay_counter: lower }
}

/// The state after the first `count` samples of a span.
pub open spec fn spec_state_after(state: State, input: Seq<i16>, decay_factor: i32, count: int) -> State
    decreases count,
{
    if count <= 0 {
        state
    } else {
        spec_step(spec_state_after(state, input, decay_factor, count - 1), input[count - 1], decay_factor)
    }
}

/// The state a span leaves: the stepped state, whose peak is zero for an
/// empty span.
pub open spec fn spec_final_state(state: State, input: Seq<i16>, decay_factor: i32) -> State {
    let stepped = spec_state_after(state, input, decay_factor, input.len() as int);
    if input.len() == 0 { State { peak: 0, ..stepped } } else { stepped }
}

/// Advance one extremum.
fn follow(extremum: i16, counter: i32, rises: bool, sample: i16, decay_factor: i32) -> (next: (i16, i32))
    ensures
        next == spec_follow(extremum, counter, rises, sample, decay_factor),
{
    if rises {
        (sample, decay_factor)
    } else {
        let counted = counter.wrapping_sub(1);
        if counted <= 0 {
            let scaled: i32 = extremum as i32 * ENVELOPE_DECAY_NUMERATOR;
            proof {
                lemma_machine_div(scaled as int, ENVELOPE_DECAY_DENOMINATOR as int);
            }
            ((scaled / ENVELOPE_DECAY_DENOMINATOR) as i16, decay_factor)
        } else {
            (extremum, counted)
        }
    }
}

/// Measure one span; report whether the final peak reaches `threshold`.
///
/// When `output` is supplied it receives the peak after each sample.
pub fn measure(
    input: &[i16],
    output: &mut Vec<i16>,
    write_output: bool,
    decay_factor: i32,
    threshold: i16,
    state: &mut State,
) -> (detected: bool)
    requires
        write_output ==> old(output).len() == input.len(),
    ensures
        *final(state) == spec_final_state(*old(state), input@, decay_factor),
        detected == (final(state).peak >= threshold),
        write_output ==> final(output)@.len() == input.len() && forall|k: int| 0 <= k < input.len()
            ==> #[trigger] final(output)@[k] == spec_state_after(*old(state), input@, decay_factor, k + 1).peak,
        !write_output ==> final(output)@ == old(output)@,
{
    let ghost start = *state;
    let mut next = *state;
    let mut peak: i16 = 0;
    let mut index: usize = 0;
    while index < input.len()
        invariant
            index <= input.len(),
            start == *old(state),
            next == spec_state_after(start, input@, decay_factor, index as int),
            index > 0 ==> peak == next.peak,
            index == 0 ==> peak == 0,
            write_output ==> output.len() == input.len() && forall|k: int| 0 <= k < index
                ==> #[trigger] output@[k] == spec_state_after(start, input@, decay_factor, k + 1).peak,
            !write_output ==> output@ == old(output)@,
        decreases input.len() - index,
    {
        let sample = input[index];
        let (maximum, upper) = follow(next.maximum, next.upper_decay_counter, sample > next.maximum, sample, decay_factor);
        let (minimum, lower) = follow(next.minimum, next.lower_decay_counter, sample < next.minimum, sample, decay_factor);
        let difference: i32 = maximum as i32 - minimum as i32;
        proof {
            lemma_machine_div(difference as int, 2);
        }
        peak = (difference / 2) as i16;
        next = State { maximum, minimum, peak, upper_decay_counter: upper, lower_decay_counter: lower };
        if write_output {
            output.set(index, peak);
        }
        index = index + 1;
    }
    next.peak = peak;
    *state = next;
    peak >= threshold
}

/// Measuring a span in two parts leaves the same state as measuring it
/// whole, provided the second part is not empty.
pub proof fn lemma_span_partition(state: State, first: Seq<i16>, second: Seq<i16>, decay_factor: i32)
    requires
        second.len() > 0,
    ensures
        spec_final_state(state, first + second, decay_factor) == spec_final_state(
            spec_final_state(state, first, decay_factor),
            second,
            decay_factor,
        ),
{
    lemma_partition_prefix(state, first, second, decay_factor, second.len() as int);
    let mid = spec_state_after(state, first, decay_factor, first.len() as int);
    if first.len() == 0 {
        assert(first + second =~= second);
        let zeroed = State { peak: 0, ..mid };
        lemma_peak_ignored(mid, zeroed, second, decay_factor, second.len() as int);
    }
}

/// The stepped states never read the incoming peak once a sample arrives.
proof fn lemma_peak_ignored(a: State, b: State, input: Seq<i16>, decay_factor: i32, count: int)
    requires
        a.maximum == b.maximum,
        a.minimum == b.minimum,
        a.upper_decay_counter == b.upper_decay_counter,
        a.lower_decay_counter == b.lower_decay_counter,
        0 < count <= input.len(),
    ensures
        spec_state_after(a, input, decay_factor, count) == spec_state_after(b, input, decay_factor, count),
    decreases count,
{
    if count > 1 {
        lemma_peak_ignored(a, b, input, decay_factor, count - 1);
    } else {
        assert(spec_state_after(a, input, decay_factor, 0) == a);
        assert(spec_state_after(b, input, decay_factor, 0) == b);
        assert(spec_step(a, input[0], decay_factor) == spec_step(b, input[0], decay_factor));
    }
}

/// Induction over the samples of the second part.
pub proof fn lemma_partition_prefix(state: State, first: Seq<i16>, second: Seq<i16>, decay_factor: i32, k: int)
    requires
        0 <= k <= second.len(),
    ensures
        spec_state_after(state, first + second, decay_factor, first.len() + k) == spec_state_after(
            spec_state_after(state, first, decay_factor, first.len() as int),
            second,
            decay_factor,
            k,
        ),
    decreases k,
{
    if k == 0 {
        lemma_prefix_agrees(state, first, first + second, decay_factor, first.len() as int);
    } else {
        lemma_partition_prefix(state, first, second, decay_factor, k - 1);
        assert((first + second)[first.len() + k - 1] == second[k - 1]);
    }
}

/// Runs over sequences that agree on a prefix agree on that prefix.
pub proof fn lemma_prefix_agrees(state: State, a: Seq<i16>, b: Seq<i16>, decay_factor: i32, count: int)
    requires
        0 <= count <= a.len(),
        count <= b.len(),
        forall|i: int| 0 <= i < count ==> a[i] == b[i],
    ensures
        spec_state_after(state, a, decay_factor, count) == spec_state_after(state, b, decay_factor, count),
    decreases count,
{
    if count > 0 {
        lemma_prefix_agrees(state, a, b, decay_factor, count - 1);
    }
}

} // verus!
