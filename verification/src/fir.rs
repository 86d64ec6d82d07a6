//! Legacy-compatible mono unit-rate FIR core on signed-16 PCM codes.
//!
//! `nx` selects both the active history entries and coefficient taps; the
//! rest of either table is left alone.  Input is scaled by a Q8 gain before
//! it enters the history, products accumulate in signed-64 arithmetic, and
//! the output is normalized, scaled by a Q8 gain, and clamped to the
//! asymmetric rails `[-32767, 32767]`.

use vstd::prelude::*;
use crate::fixed_point::{lemma_machine_div, trunc_div};
use crate::RADIO_INVALID_ARGUMENT;

verus! {

/// Historical Q8 gain divisor.
pub const LEGACY_GAIN_DIVISOR: i32 = 256;

/// Largest supported tap count.
pub const MAX_TAPS: usize = 0xffff_ffff;

/// Fixed-point controls for one FIR span.
#[derive(Clone, Copy, Debug, PartialEq, Eq)]
pub struct Controls {
    /// Active history entries and coefficient taps.
    pub nx: usize,
    /// Q8 input gain.
    pub input_gain: i32,
    /// Q8 output gain applied after normalization.
    pub output_gain: i32,
    /// Accumulator normalization divisor.
    pub calc_adjust: i32,
}

/// Whether the controls fit the history and coefficient tables.
pub open spec fn spec_controls_valid(controls: Controls, history_len: int, coefficients_len: int) -> bool {
    &&& controls.nx != 0
    &&& history_len >= controls.nx
    &&& coefficients_len >= controls.nx
    &&& controls.calc_adjust != 0
}

/// The input sample after the Q8 input gain, as stored in the history.
pub open spec fn spec_scaled_input(input: i16, controls: Controls) -> i16 {
    trunc_div((input as i32).wrapping_mul(controls.input_gain) as int, LEGACY_GAIN_DIVISOR as int) as i16
}

/// The history after shifting in one scaled sample.
pub open spec fn spec_shifted_history(history: Seq<i16>, input: i16, controls: Controls) -> Seq<i16> {
    Seq::new(
        history.len(),
        |k: int|
            if k == 0 {
                spec_scaled_input(input, controls)
            } else if k < controls.nx {
                history[k - 1]
            } else {
                history[k]
            },
    )
}

/// Sum of `coefficients[t] * history[t]` over the first `taps` taps.
pub open spec fn spec_dot(coefficients: Seq<i16>, history: Seq<i16>, taps: int) -> int
    decreases taps,
{
    if taps <= 0 {
        0
    } else {
        spec_dot(coefficients, history, taps - 1) + coefficients[taps - 1] * history[taps - 1]
    }
}

/// Clamp to the asymmetric legacy rails.
pub open spec fn spec_rail(value: i64) -> i16 {
    if value < -32_767 {
        -32_767i16
    } else if value > 32_767 {
        32_767i16
    } else {
        value as i16
    }
}

/// The output sample for a history that already holds the new input.
pub open spec fn spec_output(coefficients: Seq<i16>, history: Seq<i16>, controls: Controls) -> i16 {
    let normalized = trunc_div(spec_dot(coefficients, history, controls.nx as int), controls.calc_adjust as int) as i64;
    let scaled = normalized.wrapping_mul(controls.output_gain as i64);
    spec_rail(trunc_div(scaled as int, LEGACY_GAIN_DIVISOR as int) as i64)
}

/// The magnitude of a partial dot product is bounded by its tap count.
pub proof fn lemma_dot_bound(coefficients: Seq<i16>, history: Seq<i16>, taps: int)
    requires
        0 <= taps <= coefficients.len(),
        taps <= history.len(),
    ensures
        -taps * 0x4000_0000 <= spec_dot(coefficients, history, taps) <= taps * 0x4000_0000,
    decreases taps,
{
    if taps > 0 {
        lemma_dot_bound(coefficients, history, taps - 1);
        let c = coefficients[taps - 1] as int;
        let h = history[taps - 1] as int;
        assert(-0x4000_0000 <= c * h <= 0x4000_0000) by (nonlinear_arith)
            requires -32768 <= c <= 32767, -32768 <= h <= 32767;
    }
}

/// Process one signed-16 sample through the bounded FIR core.
pub fn process_code(input: i16, history: &mut Vec<i16>, coefficients: &[i16], controls: Controls) -> (result: Result<i16, i32>)
    requires
        controls.nx <= MAX_TAPS,
    ensures
        result is Ok <==> spec_controls_valid(controls, old(history).len() as int, coefficients.len() as int),
        result matches Err(code) ==> code == RADIO_INVALID_ARGUMENT && final(history)@ == old(history)@,
        result matches Ok(sample) ==> ({
            let shifted = spec_shifted_history(old(history)@, input, controls);
            &&& final(history)@ == shifted
            &&& sample == spec_output(coefficients@, shifted, controls)
        }),
{
    if controls.nx == 0 || history.len() < controls.nx || coefficients.len() < controls.nx
        || controls.calc_adjust == 0
    {
        return Err(RADIO_INVALID_ARGUMENT);
    }
    let ghost start = history@;
    let nx = controls.nx;
    let mut k: usize = nx - 1;
    while k > 0
        invariant
            nx == controls.nx,
            1 <= nx <= history.len(),
            history.len() == start.len(),
            k < nx,
            forall|j: int| 0 <= j <= k ==> #[trigger] history@[j] == start[j],
            forall|j: int| k < j < nx ==> #[trigger] history@[j] == start[j - 1],
            forall|j: int| nx <= j < start.len() ==> #[trigger] history@[j] == start[j],
        decreases k,
    {
        let previous = history[k - 1];
        history.set(k, previous);
        k = k - 1;
    }
    let scaled_input: i32 = (input as i32).wrapping_mul(controls.input_gain) / LEGACY_GAIN_DIVISOR;
    history.set(0, scaled_input as i16);
    assert(history@ =~= spec_shifted_history(start, input, controls));

    let mut accumulator: i64 = 0;
    let mut tap: usize = 0;
    while tap < nx
        invariant
            nx == controls.nx,
            nx <= history.len(),
            nx <= coefficients.len(),
            nx <= MAX_TAPS,
            tap <= nx,
            accumulator == spec_dot(coefficients@, history@, tap as int),
        decreases nx - tap,
    {
        proof {
            lemma_dot_bound(coefficients@, history@, tap as int + 1);
            assert(tap + 1 <= MAX_TAPS);
            assert((tap + 1) * 0x4000_0000 <= 0x4000_0000_0000_0000int);
            assert(spec_dot(coefficients@, history@, tap as int + 1) == accumulator
                + coefficients@[tap as int] * history@[tap as int]);
        }
        let c: i64 = coefficients[tap] as i64;
        let h: i64 = history[tap] as i64;
        assert(-0x4000_0000 <= c * h <= 0x4000_0000) by (nonlinear_arith)
            requires -32768 <= c <= 32767, -32768 <= h <= 32767;
        let product: i64 = c * h;
        accumulator = accumulator + product;
        tap = tap + 1;
    }
    proof {
        lemma_dot_bound(coefficients@, history@, nx as int);
    }
    let normalized: i64 = accumulator / controls.calc_adjust as i64;
    assert(normalized == trunc_div(accumulator as int, controls.calc_adjust as int)) by {
        lemma_machine_div(accumulator as int, controls.calc_adjust as int);
    }
    let sample: i64 = normalized.wrapping_mul(controls.output_gain as i64) / LEGACY_GAIN_DIVISOR as i64;
    let clamped: i16 = if sample < -32_767 { -32_767 } else if sample > 32_767 { 32_767 } else { sample as i16 };
    Ok(clamped)
}

/// History after a span of inputs, one shift per sample.
pub open spec fn spec_run_history(history: Seq<i16>, inputs: Seq<i16>, controls: Controls) -> Seq<i16>
    decreases inputs.len(),
{
    if inputs.len() == 0 {
        history
    } else {
        spec_shifted_history(spec_run_history(history, inputs.drop_last(), controls), inputs.last(), controls)
    }
}

/// Outputs of a span of inputs, in order.
pub open spec fn spec_run_outputs(
    history: Seq<i16>,
    inputs: Seq<i16>,
    coefficients: Seq<i16>,
    controls: Controls,
) -> Seq<i16>
    decreases inputs.len(),
{
    if inputs.len() == 0 {
        Seq::empty()
    } else {
        spec_run_outputs(history, inputs.drop_last(), coefficients, controls).push(
            spec_output(coefficients, spec_run_history(history, inputs, controls), controls),
        )
    }
}

/// Process a bounded signed-16 span through the FIR core, sample by sample.
///
/// It mutates only the first `nx` history entries and reads only the first
/// `nx` coefficients.  A length mismatch, or invalid controls on a nonempty
/// span, is rejected before anything changes.
pub fn process_codes(
    input: &[i16],
    output: &mut Vec<i16>,
    history: &mut Vec<i16>,
    coefficients: &[i16],
    controls: Controls,
) -> (result: Result<(), i32>)
    requires
        controls.nx <= MAX_TAPS,
    ensures
        result is Ok <==> (input.len() == old(output).len() && (input.len() == 0
            || spec_controls_valid(controls, old(history).len() as int, coefficients.len() as int))),
        result matches Err(code) ==> code == RADIO_INVALID_ARGUMENT && final(history)@ == old(history)@
            && final(output)@ == old(output)@,
        result is Ok ==> final(history)@ == spec_run_history(old(history)@, input@, controls)
            && final(output)@ == spec_run_outputs(old(history)@, input@, coefficients@, controls),
{
    if input.len() != output.len() {
        return Err(RADIO_INVALID_ARGUMENT);
    }
    let ghost start = history@;
    let mut index: usize = 0;
    while index < input.len()
        invariant
            controls.nx <= MAX_TAPS,
            index <= input.len(),
            output.len() == input.len(),
            old(output).len() == input.len(),
            start == old(history)@,
            history.len() == start.len(),
            index > 0 ==> spec_controls_valid(controls, start.len() as int, coefficients.len() as int),
            history@ == spec_run_history(start, input@.take(index as int), controls),
            output@.take(index as int) == spec_run_outputs(start, input@.take(index as int), coefficients@, controls),
            index == 0 ==> output@ == old(output)@,
        decreases input.len() - index,
    {
        let ghost before = output@;
        let sample = process_code(input[index], history, coefficients, controls);
        match sample {
            Err(code) => {
                assert(index == 0);
                assert(input@.take(0) =~= Seq::<i16>::empty());
                return Err(code);
            },
            Ok(value) => {
                output.set(index, value);
                proof {
                    let next = input@.take(index as int + 1);
                    assert(next.drop_last() =~= input@.take(index as int));
                    assert(next.last() == input@[index as int]);
                    assert(output@.take(index as int + 1) =~= before.take(index as int).push(value));
                }
                index = index + 1;
            },
        }
    }
    assert(input@.take(input.len() as int) =~= input@);
    assert(output@.take(input.len() as int) =~= output@);
    Ok(())
}

/// Running a span in two parts gives the same outputs and history as running
/// it whole.
pub proof fn lemma_span_partition(
    history: Seq<i16>,
    first: Seq<i16>,
    second: Seq<i16>,
    coefficients: Seq<i16>,
    controls: Controls,
)
    ensures
        spec_run_history(history, first + second, controls) == spec_run_history(
            spec_run_history(history, first, controls),
            second,
            controls,
        ),
        spec_run_outputs(history, first + second, coefficients, controls) == spec_run_outputs(
            history,
            first,
            coefficients,
            controls,
        ) + spec_run_outputs(spec_run_history(history, first, controls), second, coefficients, controls),
    decreases second.len(),
{
    if second.len() == 0 {
        assert(first + second =~= first);
        assert(spec_run_outputs(spec_run_history(history, first, controls), second, coefficients, controls)
            =~= Seq::<i16>::empty());
        assert(spec_run_outputs(history, first, coefficients, controls) + Seq::<i16>::empty()
            =~= spec_run_outputs(history, first, coefficients, controls));
    } else {
        let whole = first + second;
        assert(whole.drop_last() =~= first + second.drop_last());
        assert(whole.last() == second.last());
        lemma_span_partition(history, first, second.drop_last(), coefficients, controls);
        let mid = spec_run_history(history, first, controls);
        let left = spec_run_outputs(history, first, coefficients, controls);
        let right_prefix = spec_run_outputs(mid, second.drop_last(), coefficients, controls);
        let value = spec_output(coefficients, spec_run_history(mid, second, controls), controls);
        assert(left + right_prefix.push(value) =~= (left + right_prefix).push(value));
    }
}

} // verus!
