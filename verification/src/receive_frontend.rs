//! Integer steps of the legacy native discriminator receive frontend.
//!
//! Per native sample the frontend shifts its signed-16 history, filters
//! discriminator noise for the RSSI window and the squelch comparator, and,
//! once every `decimate` samples, emits one low-pass baseband sample.  These
//! are the integer steps; the comparator and the RSSI square root run on
//! floating point around them.

use vstd::prelude::*;
use crate::fixed_point::{lemma_machine_div, trunc_div};
use crate::fir::{spec_dot, spec_rail};
use crate::RADIO_INVALID_ARGUMENT;

verus! {

/// Historical Q8 gain divisor.
pub const LEGACY_GAIN_DIVISOR: i64 = 256;

/// The greatest possible baseband output count for one span.
pub fn maximum_baseband_output_count(native_frame_count: usize, decimate: usize) -> (count: usize)
    requires
        decimate > 0,
    ensures
        count == (if native_frame_count + decimate - 1 > usize::MAX {
            usize::MAX as int
        } else {
            native_frame_count + decimate - 1
        }) / (decimate as int),
{
    native_frame_count.saturating_add(decimate - 1) / decimate
}

/// Combine the high byte of `high` with the low byte of `low`.
pub open spec fn spec_splice(high: i16, low: i16) -> i16 {
    (((high as u16) & 0xff00u16) | ((low as u16) & 0x00ffu16)) as i16
}

/// The deployed history shift: a `memmove` of `count - 1` bytes (not
/// elements) one element later, on little-endian signed-16 storage.  Entry
/// `j` takes entry `j - 1` while both of its bytes lie in the moved range;
/// when the range ends inside entry `j`, only its low byte moves.
pub open spec fn spec_legacy_shift(history: Seq<i16>, count: int) -> Seq<i16> {
    Seq::new(
        history.len(),
        |j: int|
            if count <= 1 || j == 0 {
                history[j]
            } else if 2 * j - 1 < count - 1 {
                history[j - 1]
            } else if 2 * j - 2 < count - 1 {
                spec_splice(history[j], history[j - 1])
            } else {
                history[j]
            },
    )
}

/// Apply the deployed byte-count history shift.
pub fn legacy_history_shift(history: &mut Vec<i16>, count: usize)
    requires
        count <= old(history).len(),
    ensures
        final(history)@ == spec_legacy_shift(old(history)@, count as int),
{
    if count <= 1 {
        assert(history@ =~= spec_legacy_shift(old(history)@, count as int));
        return;
    }
    let ghost start = history@;
    let mut j: usize = count / 2 + 1;
    if j > history.len() {
        j = history.len();
    }
    while j > 1
        invariant
            count <= start.len(),
            history.len() == start.len(),
            1 <= j <= start.len(),
            j <= count / 2 + 1,
            count > 1,
            forall|i: int| 0 <= i < j ==> #[trigger] history@[i] == start[i],
            forall|i: int| j <= i < start.len() ==> #[trigger] history@[i] == spec_legacy_shift(start, count as int)[i],
        decreases j,
    {
        let k = j - 1;
        let previous = history[k - 1];
        let current = history[k];
        if 2 * k < count {
            history.set(k, previous);
        } else if 2 * k - 1 < count {
            let spliced: u16 = ((current as u16) & 0xff00u16) | ((previous as u16) & 0x00ffu16);
            history.set(k, spliced as i16);
        }
        j = k;
    }
    assert(history@ =~= spec_legacy_shift(start, count as int));
}

/// The discriminator-noise sample: the signed-32 wrapping dot product of the
/// noise taps and history, divided toward zero.
pub open spec fn spec_noise(history: Seq<i16>, coefficients: Seq<i16>, divisor: i32) -> i32 {
    trunc_div(spec_wrapping_dot32(coefficients, history, coefficients.len() as int) as int, divisor as int) as i32
}

/// Signed-32 wrapping dot product of the first `taps` taps.
pub open spec fn spec_wrapping_dot32(coefficients: Seq<i16>, history: Seq<i16>, taps: int) -> i32
    decreases taps,
{
    if taps <= 0 {
        0
    } else {
        spec_wrapping_dot32(coefficients, history, taps - 1).wrapping_add(
            (coefficients[taps - 1] as i32).wrapping_mul(history[taps - 1] as i32),
        )
    }
}

/// Filter one discriminator-noise sample.
///
/// The one quotient that overflows signed 32 bits (`i32::MIN / -1`) is
/// reported as `None` rather than trapping.
pub fn noise_sample(history: &[i16], coefficients: &[i16], divisor: i32) -> (noise: Option<i32>)
    requires
        coefficients.len() <= history.len(),
        divisor != 0,
    ensures
        noise is None <==> (spec_wrapping_dot32(coefficients@, history@, coefficients.len() as int) == i32::MIN
            && divisor == -1),
        noise matches Some(value) ==> value == spec_noise(history@, coefficients@, divisor),
{
    let mut accumulator: i32 = 0;
    let mut tap: usize = 0;
    while tap < coefficients.len()
        invariant
            tap <= coefficients.len(),
            coefficients.len() <= history.len(),
            accumulator == spec_wrapping_dot32(coefficients@, history@, tap as int),
        decreases coefficients.len() - tap,
    {
        accumulator = accumulator.wrapping_add((coefficients[tap] as i32).wrapping_mul(history[tap] as i32));
        tap = tap + 1;
    }
    if accumulator == i32::MIN && divisor == -1 {
        return None;
    }
    let quotient: i64 = accumulator as i64 / divisor as i64;
    proof {
        lemma_machine_div(accumulator as int, divisor as int);
        assert(i32::MIN <= trunc_div(accumulator as int, divisor as int) <= i32::MAX) by {
            lemma_trunc_div_bound(accumulator as int, divisor as int);
        }
    }
    Some(quotient as i32)
}

/// A truncated quotient of signed-32 values fits signed 32 bits except for
/// `i32::MIN / -1`.
proof fn lemma_trunc_div_bound(a: int, b: int)
    requires
        i32::MIN <= a <= i32::MAX,
        i32::MIN <= b <= i32::MAX,
        b != 0,
        !(a == i32::MIN && b == -1),
    ensures
        i32::MIN <= trunc_div(a, b) <= i32::MAX,
{
    let m = if a >= 0 { a } else { -a };
    let d = if b > 0 { b } else { -b };
    assert(m / d <= m) by (nonlinear_arith)
        requires m >= 0, d >= 1;
    assert(m / d >= 0) by (nonlinear_arith)
        requires m >= 0, d >= 1;
    if a == i32::MIN && d >= 2 {
        assert(m / d <= m / 2) by (nonlinear_arith)
            requires m >= 0, d >= 2;
    }
}

/// RSSI window accumulator state.
#[derive(Clone, Copy, Debug, PartialEq, Eq, Structural)]
pub struct RssiWindow {
    /// Sum of squared filtered-noise samples in the current window.
    pub power: i64,
    /// Samples accumulated in the current window.
    pub samples: u32,
}

/// Add one noise sample to the RSSI window; when the window fills, report
/// its accumulated power and start a new window.
pub fn accumulate_rssi(window: &mut RssiWindow, noise: i32, calibration_window: u32) -> (completed: Option<i64>)
    ensures
        ({
            let power = old(window).power.wrapping_add((noise as i64 * noise as i64) as i64);
            let samples = old(window).samples.wrapping_add(1);
            &&& samples == calibration_window ==> completed == Some(power)
                && *final(window) == (RssiWindow { power: 0, samples: 0 })
            &&& samples != calibration_window ==> completed is None
                && *final(window) == (RssiWindow { power, samples })
        }),
{
    assert(0 <= noise as i64 * noise as i64 <= 0x4000_0000_0000_0000) by (nonlinear_arith)
        requires i32::MIN <= noise <= i32::MAX;
    let square: i64 = noise as i64 * noise as i64;
    window.power = window.power.wrapping_add(square);
    window.samples = window.samples.wrapping_add(1);
    if window.samples == calibration_window {
        let power = window.power;
        window.power = 0;
        window.samples = 0;
        Some(power)
    } else {
        None
    }
}

/// The decimator phase after one native sample; a restarted count is
/// stored in the signed-16 phase as its low sixteen bits.
pub open spec fn spec_next_decimator(decimator: i16, decimate: u32) -> i16 {
    let counted = (decimator as i32).wrapping_sub(1);
    if counted <= 0 { (decimate as i32) as i16 } else { counted as i16 }
}

/// The baseband sample emitted from a history: the signed-64 dot product,
/// normalized, Q8-scaled and clamped to the asymmetric legacy rails.
pub open spec fn spec_baseband(history: Seq<i16>, coefficients: Seq<i16>, calc_adjust: i32, output_gain: i32) -> i16 {
    let normalized = trunc_div(spec_dot(coefficients, history, coefficients.len() as int), calc_adjust as int) as i64;
    spec_rail(trunc_div(normalized.wrapping_mul(output_gain as i64) as int, LEGACY_GAIN_DIVISOR as int) as i64)
}

/// Advance the decimator by one native sample and emit a baseband sample
/// when its count expires.
pub fn decimate_step(
    decimator: &mut i16,
    history: &[i16],
    coefficients: &[i16],
    calc_adjust: i32,
    output_gain: i32,
    decimate: u32,
) -> (emitted: Option<i16>)
    requires
        coefficients.len() <= history.len(),
        history.len() <= 0xffff_ffff,
        calc_adjust != 0,
        0 < decimate <= i32::MAX,
    ensures
        *final(decimator) == spec_next_decimator(*old(decimator), decimate),
        ((*old(decimator) as i32).wrapping_sub(1) <= 0) ==> emitted == Some(
            spec_baseband(history@, coefficients@, calc_adjust, output_gain),
        ),
        ((*old(decimator) as i32).wrapping_sub(1) > 0) ==> emitted is None,
{
    let counted = (*decimator as i32).wrapping_sub(1);
    if counted > 0 {
        *decimator = counted as i16;
        return None;
    }
    *decimator = (decimate as i32) as i16;
    let mut accumulator: i64 = 0;
    let mut tap: usize = 0;
    while tap < coefficients.len()
        invariant
            tap <= coefficients.len(),
            coefficients.len() <= history.len(),
            history.len() <= 0xffff_ffff,
            accumulator == spec_dot(coefficients@, history@, tap as int),
        decreases coefficients.len() - tap,
    {
        proof {
            crate::fir::lemma_dot_bound(coefficients@, history@, tap as int + 1);
            assert((tap + 1) * 0x4000_0000 <= 0x4000_0000_0000_0000int);
        }
        let c: i64 = coefficients[tap] as i64;
        let h: i64 = history[tap] as i64;
        assert(-0x4000_0000 <= c * h <= 0x4000_0000) by (nonlinear_arith)
            requires -32768 <= c <= 32767, -32768 <= h <= 32767;
        accumulator = accumulator + c * h;
        tap = tap + 1;
    }
    proof {
        crate::fir::lemma_dot_bound(coefficients@, history@, coefficients.len() as int);
        lemma_machine_div(accumulator as int, calc_adjust as int);
    }
    let normalized: i64 = accumulator / calc_adjust as i64;
    let gained: i64 = normalized.wrapping_mul(output_gain as i64);
    let sample: i64 = gained / LEGACY_GAIN_DIVISOR;
    proof {
        lemma_machine_div(gained as int, LEGACY_GAIN_DIVISOR as int);
    }
    let clamped: i16 = if sample < -32_767 { -32_767 } else if sample > 32_767 { 32_767 } else { sample as i16 };
    Some(clamped)
}

/// Fixed controls of one discriminator frontend.
#[derive(Clone, Debug)]
pub struct FrontendControls {
    /// Baseband low-pass coefficients, one per history entry.
    pub baseband_coefficients: Vec<i16>,
    /// Baseband normalization divisor.
    pub baseband_calc_adjust: i32,
    /// Q8 baseband output gain.
    pub baseband_output_gain: i32,
    /// Discriminator-noise coefficients.
    pub noise_coefficients: Vec<i16>,
    /// Noise normalization divisor.
    pub noise_divisor: i32,
    /// Advance the noise squelch and RSSI window.
    pub noise_squelch: bool,
    /// Native frames per baseband sample.
    pub decimate: u32,
    /// Native samples per RSSI window.
    pub calibration_window: u32,
}

/// The integer outcome of one frontend span.
#[derive(Clone, Debug)]
pub struct FrontendSpanCodes {
    /// Decimated baseband samples, in order.
    pub baseband: Vec<i16>,
    /// The filtered noise sample of each native frame, in order (empty
    /// without the noise squelch).
    pub noise: Vec<i32>,
    /// Power of the last RSSI window completed in the span.
    pub completed_power: Option<i64>,
}

/// Frontend progress through a span.
pub struct FrontendRun {
    /// Filter history.
    pub history: Seq<i16>,
    /// Decimator phase.
    pub decimator: i16,
    /// RSSI window.
    pub window: RssiWindow,
    /// Baseband samples emitted so far.
    pub baseband: Seq<i16>,
    /// Noise samples so far.
    pub noise: Seq<i32>,
    /// Power of the last completed RSSI window.
    pub completed: Option<i64>,
}

/// Whether a span request is well formed: a non-empty history of at most
/// `u32::MAX` entries with one baseband tap each, a noise table within the
/// history when the squelch runs, nonzero divisors, a decimation in
/// `1..=i32::MAX`, a nonzero RSSI window, and output room for every
/// baseband sample and carrier gate the span can produce.
pub open spec fn spec_frontend_valid(
    c: FrontendControls,
    history_len: int,
    frames: int,
    baseband_capacity: int,
    carrier_gate_capacity: int,
) -> bool {
    &&& spec_frontend_controls_valid(c, history_len)
    &&& baseband_capacity >= (if frames + c.decimate - 1 > usize::MAX {
        usize::MAX as int
    } else {
        frames + c.decimate - 1
    }) / (c.decimate as int)
    &&& carrier_gate_capacity >= frames
}

/// Whether the controls suit a history of `history_len` entries.
pub open spec fn spec_frontend_controls_valid(c: FrontendControls, history_len: int) -> bool {
    &&& 0 < history_len <= u32::MAX
    &&& c.baseband_coefficients@.len() == history_len
    &&& c.noise_squelch ==> 0 < c.noise_coefficients@.len() <= history_len
    &&& c.baseband_calc_adjust != 0
    &&& c.noise_squelch ==> c.noise_divisor != 0
    &&& 0 < c.decimate <= i32::MAX
    &&& c.calibration_window != 0
}

/// One native sample: shift the history and insert the sample; with the
/// squelch, filter a noise sample and add it to the RSSI window; then
/// advance the decimator, emitting a baseband sample when it expires.
/// `None` when the noise quotient overflows (`i32::MIN / -1`).
pub open spec fn spec_frontend_step(c: FrontendControls, m: FrontendRun, code: i16) -> Option<FrontendRun> {
    let h = spec_legacy_shift(m.history, m.history.len() as int).update(0, code);
    let nc = c.noise_coefficients@;
    if c.noise_squelch && spec_wrapping_dot32(nc, h, nc.len() as int) == i32::MIN && c.noise_divisor == -1 {
        None
    } else {
        let n = spec_noise(h, nc, c.noise_divisor);
        let power = m.window.power.wrapping_add((n as i64 * n as i64) as i64);
        let samples = m.window.samples.wrapping_add(1);
        let window = if !c.noise_squelch {
            m.window
        } else if samples == c.calibration_window {
            RssiWindow { power: 0, samples: 0 }
        } else {
            RssiWindow { power, samples }
        };
        let completed = if c.noise_squelch && samples == c.calibration_window { Some(power) } else { m.completed };
        let emitted = (m.decimator as i32).wrapping_sub(1) <= 0;
        Some(FrontendRun {
            history: h,
            decimator: spec_next_decimator(m.decimator, c.decimate),
            window,
            baseband: if emitted {
                m.baseband.push(spec_baseband(h, c.baseband_coefficients@, c.baseband_calc_adjust, c.baseband_output_gain))
            } else {
                m.baseband
            },
            noise: if c.noise_squelch { m.noise.push(n) } else { m.noise },
            completed,
        })
    }
}

/// The frontend after a sequence of native samples, or `None` when a noise
/// quotient overflows on the way.
pub open spec fn spec_frontend_run(c: FrontendControls, start: FrontendRun, codes: Seq<i16>) -> Option<FrontendRun>
    decreases codes.len(),
{
    if codes.len() == 0 {
        Some(start)
    } else {
        match spec_frontend_run(c, start, codes.drop_last()) {
            Some(m) => spec_frontend_step(c, m, codes.last()),
            None => None,
        }
    }
}

/// One native sample of a span on working copies of the frontend state.
fn frontend_step(
    c: &FrontendControls,
    history: &mut Vec<i16>,
    decimator: &mut i16,
    window: &mut RssiWindow,
    baseband: &mut Vec<i16>,
    noise: &mut Vec<i32>,
    completed: &mut Option<i64>,
    code: i16,
) -> (ok: bool)
    requires
        spec_frontend_controls_valid(*c, old(history)@.len() as int),
    ensures
        final(history)@.len() == old(history)@.len(),
        ({
            let m = FrontendRun {
                history: old(history)@,
                decimator: *old(decimator),
                window: *old(window),
                baseband: old(baseband)@,
                noise: old(noise)@,
                completed: *old(completed),
            };
            match spec_frontend_step(*c, m, code) {
                Some(n) => ok && final(history)@ == n.history && *final(decimator) == n.decimator
                    && *final(window) == n.window && final(baseband)@ == n.baseband && final(noise)@ == n.noise
                    && *final(completed) == n.completed,
                None => !ok,
            }
        }),
{
    let count = history.len();
    legacy_history_shift(history, count);
    history.set(0, code);
    if c.noise_squelch {
        match noise_sample(history.as_slice(), c.noise_coefficients.as_slice(), c.noise_divisor) {
            Some(n) => {
                noise.push(n);
                if let Some(power) = accumulate_rssi(window, n, c.calibration_window) {
                    *completed = Some(power);
                }
            },
            None => {
                return false;
            },
        }
    }
    if let Some(sample) = decimate_step(
        decimator,
        history.as_slice(),
        c.baseband_coefficients.as_slice(),
        c.baseband_calc_adjust,
        c.baseband_output_gain,
        c.decimate,
    ) {
        baseband.push(sample);
    }
    true
}

/// Run the integer steps of one native discriminator span.
///
/// `codes` are the left-channel PCM codes of the span.  A malformed request
/// (see `spec_frontend_valid`) or a span whose noise quotient overflows is
/// refused with INVALID_ARGUMENT and leaves the history, decimator and RSSI
/// window untouched; otherwise they advance by every sample and the
/// baseband samples, per-frame noise samples and the power of the last
/// completed RSSI window are returned.
pub fn frontend_span(
    codes: &[i16],
    history: &mut Vec<i16>,
    controls: &FrontendControls,
    decimator: &mut i16,
    window: &mut RssiWindow,
    baseband_capacity: usize,
    carrier_gate_capacity: usize,
) -> (r: Result<FrontendSpanCodes, i32>)
    ensures
        ({
            let start = FrontendRun {
                history: old(history)@,
                decimator: *old(decimator),
                window: *old(window),
                baseband: Seq::empty(),
                noise: Seq::empty(),
                completed: None,
            };
            let valid = spec_frontend_valid(
                *controls, old(history)@.len() as int, codes@.len() as int, baseband_capacity as int,
                carrier_gate_capacity as int);
            let run = spec_frontend_run(*controls, start, codes@);
            &&& r is Err <==> !valid || run is None
            &&& r matches Err(code) ==> code == RADIO_INVALID_ARGUMENT && final(history)@ == old(history)@
                && *final(decimator) == *old(decimator) && *final(window) == *old(window)
            &&& r matches Ok(out) ==> run matches Some(m) && out.baseband@ == m.baseband && out.noise@ == m.noise
                && out.completed_power == m.completed && final(history)@ == m.history
                && *final(decimator) == m.decimator && *final(window) == m.window
        }),
{
    let frames = codes.len();
    if history.len() == 0
        || history.len() > 0xffff_ffff
        || controls.baseband_coefficients.len() != history.len()
        || (controls.noise_squelch
            && (controls.noise_coefficients.len() == 0 || controls.noise_coefficients.len() > history.len()))
        || controls.baseband_calc_adjust == 0
        || (controls.noise_squelch && controls.noise_divisor == 0)
        || controls.decimate == 0
        || controls.decimate > 0x7fff_ffff
        || controls.calibration_window == 0
        || baseband_capacity < maximum_baseband_output_count(frames, controls.decimate as usize)
        || carrier_gate_capacity < frames
    {
        return Err(RADIO_INVALID_ARGUMENT);
    }
    let ghost start = FrontendRun {
        history: history@,
        decimator: *decimator,
        window: *window,
        baseband: Seq::empty(),
        noise: Seq::empty(),
        completed: None,
    };
    let mut work_history = history.clone();
    let mut work_decimator = *decimator;
    let mut work_window = *window;
    let mut baseband: Vec<i16> = Vec::new();
    let mut noise: Vec<i32> = Vec::new();
    let mut completed: Option<i64> = None;
    let mut index: usize = 0;
    while index < frames
        invariant
            index <= frames,
            frames == codes@.len(),
            work_history@.len() == start.history.len(),
            spec_frontend_valid(*controls, start.history.len() as int, frames as int, baseband_capacity as int,
                carrier_gate_capacity as int),
            start == (FrontendRun {
                history: old(history)@,
                decimator: *old(decimator),
                window: *old(window),
                baseband: Seq::empty(),
                noise: Seq::empty(),
                completed: None,
            }),
            history@ == start.history,
            *decimator == start.decimator,
            *window == start.window,
            spec_frontend_run(*controls, start, codes@.subrange(0, index as int)) == Some(FrontendRun {
                history: work_history@,
                decimator: work_decimator,
                window: work_window,
                baseband: baseband@,
                noise: noise@,
                completed,
            }),
        decreases frames - index,
    {
        proof {
            assert(codes@.subrange(0, index as int + 1).drop_last() =~= codes@.subrange(0, index as int));
            assert(codes@.subrange(0, index as int + 1).last() == codes@[index as int]);
        }
        let ok = frontend_step(
            controls,
            &mut work_history,
            &mut work_decimator,
            &mut work_window,
            &mut baseband,
            &mut noise,
            &mut completed,
            codes[index],
        );
        if !ok {
            proof {
                lemma_run_stays_none(*controls, start, codes@, index as int + 1);
                assert(codes@.subrange(0, codes@.len() as int) =~= codes@);
            }
            return Err(RADIO_INVALID_ARGUMENT);
        }
        index = index + 1;
    }
    proof {
        assert(codes@.subrange(0, frames as int) =~= codes@);
    }
    *history = work_history;
    *decimator = work_decimator;
    *window = work_window;
    Ok(FrontendSpanCodes { baseband, noise, completed_power: completed })
}

/// Once a prefix of a span overflows, the whole span does.
proof fn lemma_run_stays_none(c: FrontendControls, start: FrontendRun, codes: Seq<i16>, k: int)
    requires
        0 <= k <= codes.len(),
        spec_frontend_run(c, start, codes.subrange(0, k)) is None,
    ensures
        spec_frontend_run(c, start, codes) is None,
    decreases codes.len() - k,
{
    if k < codes.len() {
        assert(codes.subrange(0, k + 1).drop_last() =~= codes.subrange(0, k));
        lemma_run_stays_none(c, start, codes, k + 1);
    } else {
        assert(codes.subrange(0, k) =~= codes);
    }
}

} // verus!
