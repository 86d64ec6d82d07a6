//! Legacy-compatible receiver deemphasis integrator on signed-16 PCM codes.
//!
//! A one-pole fixed-point stage follows the receiver high-pass filter when
//! flat discriminator audio requires deemphasis.  It keeps the signed-32
//! recursive accumulator, wrapping multiplication and addition, division
//! that truncates toward zero, and the signed-16 output narrowing.

use vstd::prelude::*;
use crate::fixed_point::{lemma_machine_div, trunc_div};

verus! {

/// Divisor of the recursive feedback product.
pub const LEGACY_FEEDBACK_DIVISOR: i32 = 32_768;
/// Divisor of the feed-forward product.
pub const LEGACY_OUTPUT_DIVISOR: i32 = 8_192;
/// Historical Q8 gain divisor.
pub const LEGACY_GAIN_DIVISOR: i32 = 256;

/// Caller-owned recursive state for one receiver-deemphasis stage.
#[derive(Clone, Copy, Debug, PartialEq, Eq, Structural)]
pub struct State {
    /// Signed-32 recursive accumulator in historical fixed-point units.
    pub accumulator: i32,
}

impl Default for State {
    fn default() -> (state: Self)
        ensures
            state.accumulator == 0,
    {
        State { accumulator: 0 }
    }
}

/// Fixed-point controls of the stage.
#[derive(Clone, Copy, Debug, PartialEq, Eq, Structural)]
pub struct Controls {
    /// Historical feed-forward coefficient.
    pub output_coefficient: i16,
    /// Historical recursive feedback coefficient.
    pub feedback_coefficient: i16,
    /// Historical Q8 output gain.
    pub output_gain: i32,
}

/// The accumulator after one input sample.
pub open spec fn spec_step(accumulator: i32, x: i16, controls: Controls) -> i32 {
    let feedback = trunc_div(
        accumulator.wrapping_mul(controls.feedback_coefficient as i32) as int,
        LEGACY_FEEDBACK_DIVISOR as int,
    ) as i32;
    (x as i32).wrapping_add(feedback)
}

/// The output code for an updated accumulator.
pub open spec fn spec_output(accumulator: i32, controls: Controls) -> i16 {
    let filtered = trunc_div(
        accumulator.wrapping_mul(controls.output_coefficient as i32) as int,
        LEGACY_OUTPUT_DIVISOR as int,
    ) as i32;
    trunc_div(filtered.wrapping_mul(controls.output_gain) as int, LEGACY_GAIN_DIVISOR as int) as i16
}

/// The accumulator after the first `count` samples of a span.
pub open spec fn spec_accumulator_after(accumulator: i32, input: Seq<i16>, controls: Controls, count: int) -> i32
    decreases count,
{
    if count <= 0 {
        accumulator
    } else {
        spec_step(spec_accumulator_after(accumulator, input, controls, count - 1), input[count - 1], controls)
    }
}

/// The outputs of the first `count` samples of a span.
pub open spec fn spec_outputs(accumulator: i32, input: Seq<i16>, controls: Controls, count: int) -> Seq<i16>
    decreases count,
{
    if count <= 0 {
        Seq::empty()
    } else {
        spec_outputs(accumulator, input, controls, count - 1).push(
            spec_output(spec_accumulator_after(accumulator, input, controls, count), controls),
        )
    }
}

/// Process one span with the historical fixed-point deemphasis rules.
pub fn process(input: &[i16], output: &mut Vec<i16>, controls: Controls, state: &mut State)
    requires
        old(output).len() == input.len(),
    ensures
        final(state).accumulator == spec_accumulator_after(old(state).accumulator, input@, controls, input.len() as int),
        final(output)@ == spec_outputs(old(state).accumulator, input@, controls, input.len() as int),
{
    let ghost start = state.accumulator;
    let output_coefficient = controls.output_coefficient as i32;
    let feedback_coefficient = controls.feedback_coefficient as i32;
    let mut accumulator: i32 = state.accumulator;
    let mut index: usize = 0;
    while index < input.len()
        invariant
            index <= input.len(),
            output.len() == input.len(),
            start == old(state).accumulator,
            output_coefficient == controls.output_coefficient as i32,
            feedback_coefficient == controls.feedback_coefficient as i32,
            accumulator == spec_accumulator_after(start, input@, controls, index as int),
            output@.take(index as int) == spec_outputs(start, input@, controls, index as int),
        decreases input.len() - index,
    {
        let product = accumulator.wrapping_mul(feedback_coefficient);
        let feedback = product / LEGACY_FEEDBACK_DIVISOR;
        proof {
            lemma_machine_div(product as int, LEGACY_FEEDBACK_DIVISOR as int);
        }
        accumulator = (input[index] as i32).wrapping_add(feedback);
        let weighted = accumulator.wrapping_mul(output_coefficient);
        let filtered = weighted / LEGACY_OUTPUT_DIVISOR;
        let gained = filtered.wrapping_mul(controls.output_gain);
        let scaled = gained / LEGACY_GAIN_DIVISOR;
        proof {
            lemma_machine_div(weighted as int, LEGACY_OUTPUT_DIVISOR as int);
            lemma_machine_div(gained as int, LEGACY_GAIN_DIVISOR as int);
        }
        let ghost before = output@;
        output.set(index, scaled as i16);
        proof {
            assert(output@.take(index as int + 1) =~= before.take(index as int).push(scaled as i16));
        }
        index = index + 1;
    }
    assert(output@.take(input.len() as int) =~= output@);
    state.accumulator = accumulator;
}

/// Processing a span in two parts leaves the same accumulator and produces
/// the same outputs as processing it whole.
pub proof fn lemma_span_partition(accumulator: i32, first: Seq<i16>, second: Seq<i16>, controls: Controls)
    ensures
        spec_accumulator_after(accumulator, first + second, controls, (first + second).len() as int)
            == spec_accumulator_after(
            spec_accumulator_after(accumulator, first, controls, first.len() as int),
            second,
            controls,
            second.len() as int,
        ),
        spec_outputs(accumulator, first + second, controls, (first + second).len() as int) == spec_outputs(
            accumulator,
            first,
            controls,
            first.len() as int,
        ) + spec_outputs(
            spec_accumulator_after(accumulator, first, controls, first.len() as int),
            second,
            controls,
            second.len() as int,
        ),
{
    lemma_partition_prefix(accumulator, first, second, controls, second.len() as int);
}

/// Induction over the samples of the second part.
proof fn lemma_partition_prefix(accumulator: i32, first: Seq<i16>, second: Seq<i16>, controls: Controls, k: int)
    requires
        0 <= k <= second.len(),
    ensures
        spec_accumulator_after(accumulator, first + second, controls, first.len() + k) == spec_accumulator_after(
            spec_accumulator_after(accumulator, first, controls, first.len() as int),
            second,
            controls,
            k,
        ),
        spec_outputs(accumulator, first + second, controls, first.len() + k) == spec_outputs(
            accumulator,
            first,
            controls,
            first.len() as int,
        ) + spec_outputs(
            spec_accumulator_after(accumulator, first, controls, first.len() as int),
            second,
            controls,
            k,
        ),
    decreases k,
{
    let whole = first + second;
    let mid = spec_accumulator_after(accumulator, first, controls, first.len() as int);
    if k == 0 {
        lemma_prefix_agrees(accumulator, first, whole, controls, first.len() as int);
        assert(spec_outputs(accumulator, first, controls, first.len() as int) + Seq::<i16>::empty()
            =~= spec_outputs(accumulator, first, controls, first.len() as int));
    } else {
        lemma_partition_prefix(accumulator, first, second, controls, k - 1);
        assert(whole[first.len() + k - 1] == second[k - 1]);
        let left = spec_outputs(accumulator, first, controls, first.len() as int);
        let right = spec_outputs(mid, second, controls, k - 1);
        let value = spec_output(spec_accumulator_after(mid, second, controls, k), controls);
        assert(left + right.push(value) =~= (left + right).push(value));
    }
}

/// Runs over sequences that agree on a prefix agree on that prefix.
proof fn lemma_prefix_agrees(accumulator: i32, a: Seq<i16>, b: Seq<i16>, controls: Controls, count: int)
    requires
        0 <= count <= a.len(),
        count <= b.len(),
        forall|i: int| 0 <= i < count ==> a[i] == b[i],
    ensures
        spec_accumulator_after(accumulator, a, controls, count) == spec_accumulator_after(accumulator, b, controls, count),
        spec_outputs(accumulator, a, controls, count) == spec_outputs(accumulator, b, controls, count),
    decreases count,
{
    if count > 0 {
        lemma_prefix_agrees(accumulator, a, b, controls, count - 1);
    }
}

} // verus!
