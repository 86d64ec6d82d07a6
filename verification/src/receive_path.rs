//! Setup and sample-clock decisions of the owned native receive path.
//!
//! Construction validates one immutable receiver configuration and sizes
//! every callback workspace.  The per-span decisions that do not touch PCM
//! values are here too: which native frames emit a decimated baseband
//! sample, how long the VOX carrier hold lasts after the final qualifying
//! sample, and where the fixed 20 ms delay-gate boundaries fall within a span.

use vstd::prelude::*;
use crate::RADIO_INVALID_ARGUMENT;
use crate::timer::{FRAMES_PER_MILLISECOND, NATIVE_SAMPLE_RATE_HZ};
use crate::{center_slicer, ctcss_receive, deemphasis_integrator, delay_line, envelope_meter, fir, rx_blanking, timer};

verus! {

/// Fixed legacy network-rate detector sample rate.
pub const BASE_SAMPLE_RATE_HZ: u32 = 8_000;

/// Native frames in the retained 20 ms legacy delay-gate interval.
pub const LEGACY_DELAY_GATE_FRAMES: u32 = 960;

/// Fixed receiver configuration for one selected legacy FIR stage.
#[derive(Clone, Copy, Debug)]
pub struct FilterConfig<'a> {
    /// Selected signed-16 coefficient table.
    pub coefficients: &'a [i16],
    /// Historical Q8 input gain.
    pub input_gain: i32,
    /// Historical Q8 output gain.
    pub output_gain: i32,
    /// Historical FIR normalization divisor.
    pub calc_adjust: i32,
}

/// Fixed controls for the native discriminator frontend.
#[derive(Clone, Copy, Debug)]
pub struct FrontendConfig<'a> {
    /// Selected native-to-baseband low-pass coefficient table.
    pub baseband_coefficients: &'a [i16],
    /// Historical native-to-baseband normalization divisor.
    pub baseband_calc_adjust: i32,
    /// Historical Q8 native-to-baseband output gain.
    pub baseband_output_gain: i32,
    /// Selected discriminator-noise coefficient table.
    pub noise_coefficients: &'a [i16],
    /// Historical discriminator-noise normalization divisor.
    pub noise_divisor: i32,
    /// Native frames per emitted baseband sample.
    pub decimate: u32,
    /// Native frames accumulated for one RSSI calibration result.
    pub calibration_window: u32,
    /// Legacy MICOR squelch opening level.
    pub open_level: u32,
    /// Legacy MICOR squelch hysteresis.
    pub hysteresis: u32,
    /// Advance discriminator-noise RSSI and MICOR squelch; false retains the
    /// VOX frontend branch, which still decimates audio.
    pub noise_squelch: bool,
}

/// Optional CTCSS center-slicer controls.
#[derive(Clone, Copy, Debug)]
pub struct CenterSlicerConfig {
    /// Legacy signed-PCM limiter magnitude.
    pub limit: i32,
    /// Legacy peak-tracker set point.
    pub setpoint: i16,
    /// Legacy extrema discharge amount per baseband sample.
    pub decay_factor: i32,
    /// Retain the historical alternating extrema diagnostic trace.
    pub trace: bool,
}

/// Fixed controls for the legacy one-pole receiver deemphasis stage.
#[derive(Clone, Copy, Debug)]
pub struct DeemphasisConfig {
    /// Historical feed-forward coefficient.
    pub output_coefficient: i16,
    /// Historical recursive feedback coefficient.
    pub feedback_coefficient: i16,
    /// Historical Q8 output gain.
    pub output_gain: i32,
}

/// Preallocated receiver squelch-delay controls.
#[derive(Clone, Copy, Debug)]
pub struct DelayConfig {
    /// Circular-storage length in baseband samples.
    pub storage_capacity: u32,
    /// Delay lead in baseband samples.
    pub lead: u32,
}

/// Fixed controls for one legacy envelope detector.
#[derive(Clone, Copy, Debug)]
pub struct EnvelopeConfig {
    /// Samples between the historical envelope decay steps.
    pub decay_factor: i32,
    /// Legacy signed-PCM comparator threshold.
    pub threshold: i16,
}

/// VOX detector and carrier-hang configuration.
#[derive(Clone, Copy, Debug)]
pub struct VoxConfig {
    /// Fixed envelope detector controls.
    pub envelope: EnvelopeConfig,
    /// VOX hold duration in milliseconds after the final qualifying sample.
    pub hang_time_ms: i32,
}

/// Selected receive CTCSS detector configuration.
#[derive(Clone, Copy, Debug)]
pub struct CtcssConfig {
    /// Bit mask of configured legacy CTCSS table indices.
    pub tone_mask: u64,
    /// Select relaxed CTCSS talk-off behavior.
    pub relax: bool,
}

/// Selected receive DCS detector configuration.
#[derive(Clone, Copy, Debug)]
pub struct DcsConfig {
    /// Legacy numeric DCS code.
    pub code: i32,
    /// Invert the received DCS symbol polarity.
    pub inverted: bool,
}

/// Setup-only configuration for one owned native receive path.
#[derive(Clone, Copy, Debug)]
pub struct Config<'a> {
    /// Fixed native stream rate for the lifetime of this path.
    pub native_sample_rate_hz: u32,
    /// Largest native frame span accepted per call.
    pub maximum_native_frames: u32,
    /// Native discriminator frontend controls.
    pub frontend: FrontendConfig<'a>,
    /// CTCSS low-pass FIR controls.
    pub lsd_filter: FilterConfig<'a>,
    /// Receiver voice high-pass FIR controls.
    pub hpf_filter: Option<FilterConfig<'a>>,
    /// CTCSS centering and limiting, enabled with CTCSS detection.
    pub center_slicer: Option<CenterSlicerConfig>,
    /// Optional flat-discriminator receiver deemphasis.
    pub deemphasis: Option<DeemphasisConfig>,
    /// Optional carrier-tail audio delay.
    pub delay: Option<DelayConfig>,
    /// Optional VOX carrier detector.
    pub vox: Option<VoxConfig>,
    /// Optional tuning envelope detector.
    pub measurement: Option<EnvelopeConfig>,
    /// Optional CTCSS detector bank.
    pub ctcss: Option<CtcssConfig>,
    /// Optional DCS detector.
    pub dcs: Option<DcsConfig>,
}

/// Fixed-point controls of one FIR stage, without its coefficient table.
#[derive(Clone, Copy, Debug, PartialEq, Eq, Structural)]
pub struct FilterControls {
    /// Historical Q8 input gain.
    pub input_gain: i32,
    /// Historical Q8 output gain.
    pub output_gain: i32,
    /// Historical FIR normalization divisor.
    pub calc_adjust: i32,
}

/// Whether one FIR stage has coefficients and a usable divisor.
pub open spec fn spec_valid_filter(config: FilterConfig) -> bool {
    config.coefficients@.len() != 0 && config.calc_adjust != 0
}

/// Whether one FIR stage has coefficients and a usable divisor.
pub fn valid_filter(config: FilterConfig<'_>) -> (valid: bool)
    ensures
        valid == spec_valid_filter(config),
{
    config.coefficients.len() != 0 && config.calc_adjust != 0
}

/// The fixed-point controls of one FIR stage.
pub fn filter_controls(config: FilterConfig<'_>) -> (controls: FilterControls)
    ensures
        controls == (FilterControls {
            input_gain: config.input_gain,
            output_gain: config.output_gain,
            calc_adjust: config.calc_adjust,
        }),
{
    FilterControls {
        input_gain: config.input_gain,
        output_gain: config.output_gain,
        calc_adjust: config.calc_adjust,
    }
}

/// The greatest baseband output count of one span with a fresh or partial
/// decimator phase: `ceil(native_frame_count / decimate)`, saturating.
pub fn maximum_baseband_output_count(native_frame_count: usize, decimate: usize) -> (count: usize)
    requires
        decimate > 0,
    ensures
        count == (if native_frame_count + decimate - 1 > usize::MAX {
            usize::MAX as int
        } else {
            native_frame_count + decimate - 1
        }) / (decimate as int),
{
    native_frame_count.saturating_add(decimate - 1) / decimate
}

/// Whether a configuration is accepted by construction.
pub open spec fn spec_config_valid(config: Config) -> bool {
    &&& config.native_sample_rate_hz == NATIVE_SAMPLE_RATE_HZ
    &&& config.frontend.decimate != 0
    &&& config.native_sample_rate_hz % config.frontend.decimate == 0
    &&& config.native_sample_rate_hz / config.frontend.decimate == BASE_SAMPLE_RATE_HZ
    &&& config.maximum_native_frames != 0
    &&& config.frontend.baseband_coefficients@.len() != 0
    &&& config.frontend.noise_squelch ==> config.frontend.noise_coefficients@.len() != 0
        && config.frontend.noise_coefficients@.len() <= config.frontend.baseband_coefficients@.len()
    &&& config.frontend.baseband_calc_adjust != 0
    &&& config.frontend.noise_squelch ==> config.frontend.noise_divisor != 0
    &&& config.frontend.calibration_window != 0
    &&& spec_valid_filter(config.lsd_filter)
    &&& config.hpf_filter matches Some(filter) ==> spec_valid_filter(filter)
    &&& config.ctcss.is_some() == config.center_slicer.is_some()
    &&& config.hpf_filter.is_none() ==> config.deemphasis.is_none() && config.delay.is_none()
    &&& config.delay matches Some(delay) ==> delay.storage_capacity != 0 && delay.lead <= delay.storage_capacity
    &&& config.vox matches Some(vox) ==> vox.hang_time_ms <= 0 || vox.hang_time_ms * FRAMES_PER_MILLISECOND <= u32::MAX
}

/// The native frames of an interleaved stereo span.  A span with an odd
/// sample count, a non-finite sample (`all_finite` false) or more frames
/// than the path accepts is refused.
pub fn native_span_frames(sample_count: usize, all_finite: bool, maximum_native_frames: u32) -> (r: Result<u32, i32>)
    ensures
        r is Ok <==> sample_count % 2 == 0 && sample_count / 2 <= maximum_native_frames && all_finite,
        r matches Ok(frames) ==> frames == sample_count / 2,
        r matches Err(code) ==> code == RADIO_INVALID_ARGUMENT,
{
    if sample_count % 2 != 0 || sample_count / 2 > maximum_native_frames as usize || !all_finite {
        return Err(RADIO_INVALID_ARGUMENT);
    }
    Ok((sample_count / 2) as u32)
}

/// Workspace sizes and derived controls of one validated receive path.
#[derive(Clone, Copy, Debug, PartialEq, Eq, Structural)]
pub struct Setup {
    /// Largest accepted native span in frames.
    pub maximum_native_frames: u64,
    /// Capacity of every baseband workspace.
    pub baseband_capacity: u64,
    /// Interleaved native scalar samples in the largest span.
    pub native_samples: u64,
    /// Circular delay storage in baseband samples.
    pub delay_storage_capacity: u64,
    /// VOX hold in native frames after the final qualifying sample.
    pub vox_hang_frames: u32,
    /// Initial frontend decimator phase.
    pub initial_decimator: i16,
    /// CTCSS low-pass FIR controls.
    pub lsd_controls: FilterControls,
    /// Optional voice high-pass FIR controls.
    pub hpf_controls: Option<FilterControls>,
}

/// Validate one receive-path configuration and size its workspaces.
///
/// The baseband capacity covers the greatest number of decimated samples
/// any accepted span can emit from any decimator phase.
pub fn setup(config: &Config<'_>) -> (result: Result<Setup, i32>)
    ensures
        result is Ok <==> spec_config_valid(*config),
        result matches Err(code) ==> code == RADIO_INVALID_ARGUMENT,
        result matches Ok(s) ==> ({
            let decimate = config.frontend.decimate as int;
            &&& s.maximum_native_frames == config.maximum_native_frames
            &&& s.baseband_capacity == (config.maximum_native_frames + 2 * decimate - 2) / decimate
            &&& s.native_samples == 2 * config.maximum_native_frames
            &&& s.delay_storage_capacity == match config.delay {
                Some(delay) => delay.storage_capacity as int,
                None => 0,
            }
            &&& s.vox_hang_frames == match config.vox {
                Some(vox) => if vox.hang_time_ms > 0 { vox.hang_time_ms * FRAMES_PER_MILLISECOND } else { 0 },
                None => 0,
            }
            &&& s.initial_decimator == decimate
            &&& s.lsd_controls == (FilterControls {
                input_gain: config.lsd_filter.input_gain,
                output_gain: config.lsd_filter.output_gain,
                calc_adjust: config.lsd_filter.calc_adjust,
            })
            &&& s.hpf_controls == match config.hpf_filter {
                Some(filter) => Some(FilterControls {
                    input_gain: filter.input_gain,
                    output_gain: filter.output_gain,
                    calc_adjust: filter.calc_adjust,
                }),
                None => None,
            }
        }),
{
    let hpf_valid = match config.hpf_filter {
        Some(filter) => valid_filter(filter),
        None => true,
    };
    if config.native_sample_rate_hz != NATIVE_SAMPLE_RATE_HZ
        || config.frontend.decimate == 0
        || config.native_sample_rate_hz % config.frontend.decimate != 0
        || config.native_sample_rate_hz / config.frontend.decimate != BASE_SAMPLE_RATE_HZ
        || config.maximum_native_frames == 0
        || config.frontend.baseband_coefficients.len() == 0
        || config.frontend.noise_squelch && (config.frontend.noise_coefficients.len() == 0
            || config.frontend.noise_coefficients.len() > config.frontend.baseband_coefficients.len())
        || config.frontend.baseband_calc_adjust == 0
        || config.frontend.noise_squelch && config.frontend.noise_divisor == 0
        || config.frontend.calibration_window == 0
        || !valid_filter(config.lsd_filter)
        || !hpf_valid
        || (config.ctcss.is_some() != config.center_slicer.is_some())
        || config.hpf_filter.is_none() && (config.deemphasis.is_some() || config.delay.is_some())
    {
        return Err(RADIO_INVALID_ARGUMENT);
    }
    match config.delay {
        Some(delay) => {
            if delay.storage_capacity == 0 || delay.lead > delay.storage_capacity {
                return Err(RADIO_INVALID_ARGUMENT);
            }
        },
        None => {},
    }
    let vox_hang_frames: u32 = match config.vox {
        Some(vox) => {
            if vox.hang_time_ms > 0 {
                let frames: i64 = vox.hang_time_ms as i64 * FRAMES_PER_MILLISECOND as i64;
                if frames > u32::MAX as i64 {
                    return Err(RADIO_INVALID_ARGUMENT);
                }
                frames as u32
            } else {
                0
            }
        },
        None => 0,
    };
    assert(config.frontend.decimate == 6) by (nonlinear_arith)
        requires
            config.frontend.decimate > 0,
            48_000int / (config.frontend.decimate as int) == 8_000int;
    let maximum_native_frames = config.maximum_native_frames as u64;
    let decimate = config.frontend.decimate as u64;
    let baseband_capacity = (maximum_native_frames + 2 * decimate - 2) / decimate;
    let delay_storage_capacity: u64 = match config.delay {
        Some(delay) => delay.storage_capacity as u64,
        None => 0,
    };
    let hpf_controls = match config.hpf_filter {
        Some(filter) => Some(filter_controls(filter)),
        None => None,
    };
    Ok(Setup {
        maximum_native_frames,
        baseband_capacity,
        native_samples: maximum_native_frames * 2,
        delay_storage_capacity,
        vox_hang_frames,
        initial_decimator: config.frontend.decimate as i16,
        lsd_controls: filter_controls(config.lsd_filter),
        hpf_controls,
    })
}

/// The first native frame (1-based) of a span that emits a baseband sample
/// from decimator phase `decimator`.
pub open spec fn spec_first_emission(decimator: int) -> int {
    if decimator >= 1 { decimator } else { 1 }
}

/// The native frames (1-based offsets) of a span that emit a baseband
/// sample: the first one, then every `decimate` frames, up to the span's end.
pub open spec fn spec_emission_offsets(decimator: int, native_frame_count: int, decimate: int) -> Seq<u32> {
    let first = spec_first_emission(decimator);
    let count = if native_frame_count < first { 0 } else { (native_frame_count - first) / decimate + 1 };
    Seq::new(count as nat, |i: int| (first + i * decimate) as u32)
}

/// The decimator phase after `k` native frames of a span.
pub open spec fn spec_decimator_after(decimator: int, k: int, decimate: int) -> int {
    let first = spec_first_emission(decimator);
    if k < first { decimator - k } else { decimate - (k - first) % decimate }
}

/// `(x + 1)` divided and reduced by `m`, from `x`'s quotient and remainder.
proof fn lemma_div_mod_successor(x: int, m: int)
    requires
        x >= 0,
        m > 0,
    ensures
        (x + 1) % m == if x % m == m - 1 { 0 } else { x % m + 1 },
        (x + 1) / m == if x % m == m - 1 { x / m + 1 } else { x / m },
{
    let q = x / m;
    let r = x % m;
    vstd::arithmetic::div_mod::lemma_fundamental_div_mod(x, m);
    vstd::arithmetic::div_mod::lemma_mod_bound(x, m);
    if r == m - 1 {
        assert(x + 1 == (q + 1) * m + 0) by (nonlinear_arith)
            requires x == m * q + r, r == m - 1;
        vstd::arithmetic::div_mod::lemma_fundamental_div_mod_converse(x + 1, m, q + 1, 0);
    } else {
        assert(x + 1 == q * m + (r + 1)) by (nonlinear_arith)
            requires x == m * q + r;
        vstd::arithmetic::div_mod::lemma_fundamental_div_mod_converse(x + 1, m, q, r + 1);
    }
}

/// One native frame advances the decimator and may emit one more offset.
pub proof fn lemma_offsets_step(d0: int, k: int, dec: int)
    requires
        0 <= k,
        dec > 0,
        d0 <= dec,
    ensures
        spec_decimator_after(d0, k, dec) - 1 <= 0 ==> spec_emission_offsets(d0, k + 1, dec)
            == spec_emission_offsets(d0, k, dec).push((k + 1) as u32),
        spec_decimator_after(d0, k, dec) - 1 <= 0 ==> spec_decimator_after(d0, k + 1, dec) == dec,
        spec_decimator_after(d0, k, dec) - 1 > 0 ==> spec_emission_offsets(d0, k + 1, dec)
            == spec_emission_offsets(d0, k, dec),
        spec_decimator_after(d0, k, dec) - 1 > 0 ==> spec_decimator_after(d0, k + 1, dec)
            == spec_decimator_after(d0, k, dec) - 1,
        spec_decimator_after(d0, k, dec) <= dec,
        k >= 1 ==> spec_decimator_after(d0, k, dec) >= 1,
{
    let first = spec_first_emission(d0);
    let before = spec_emission_offsets(d0, k, dec);
    let after = spec_emission_offsets(d0, k + 1, dec);
    if k + 1 < first {
        assert(after =~= before);
    } else if k + 1 == first {
        assert(after.len() == 1) by {
            vstd::arithmetic::div_mod::lemma_small_mod(0, dec as nat);
        }
        assert(0int / dec == 0) by (nonlinear_arith) requires dec > 0;
        assert((k + 1 - first) % dec == 0) by {
            vstd::arithmetic::div_mod::lemma_small_mod(0, dec as nat);
        }
        assert(before.len() == 0);
        assert(0 * dec == 0);
        assert(after[0] == (k + 1) as u32);
        assert(after =~= before.push((k + 1) as u32));
    } else {
        let x = k - first;
        lemma_div_mod_successor(x, dec);
        vstd::arithmetic::div_mod::lemma_mod_bound(x, dec);
        vstd::arithmetic::div_mod::lemma_mod_bound(x + 1, dec);
        vstd::arithmetic::div_mod::lemma_fundamental_div_mod(x, dec);
        let q = x / dec;
        assert(q >= 0) by (nonlinear_arith) requires x >= 0, dec > 0, q == x / dec;
        if x % dec == dec - 1 {
            assert(first + (q + 1) * dec == k + 1) by (nonlinear_arith)
                requires x == dec * q + (dec - 1), x == k - first;
            assert(after =~= before.push((k + 1) as u32));
        } else {
            assert(after =~= before);
        }
    }
}

/// Record which native frames of a span emit a decimated baseband sample,
/// following the frontend's decimator from phase `initial_decimator`.
pub fn record_emission_offsets(initial_decimator: i16, native_frame_count: u32, decimate: u32) -> (offsets: Vec<u32>)
    requires
        0 < decimate <= i16::MAX,
        initial_decimator <= decimate,
    ensures
        offsets@ == spec_emission_offsets(initial_decimator as int, native_frame_count as int, decimate as int),
{
    let ghost d0 = initial_decimator as int;
    let ghost first = spec_first_emission(d0);
    let ghost dec = decimate as int;
    let mut offsets: Vec<u32> = Vec::new();
    let mut decimator: i32 = initial_decimator as i32;
    let mut offset: u32 = 0;
    while offset < native_frame_count
        invariant
            0 < dec <= i16::MAX,
            dec == decimate,
            d0 <= dec,
            d0 == initial_decimator,
            first == spec_first_emission(d0),
            offset <= native_frame_count,
            decimator == spec_decimator_after(d0, offset as int, dec),
            i16::MIN - 1 <= decimator <= dec,
            offsets@ == spec_emission_offsets(d0, offset as int, dec),
        decreases native_frame_count - offset,
    {
        let next = offset + 1;
        proof {
            lemma_offsets_step(d0, offset as int, dec);
        }
        decimator = decimator - 1;
        if decimator <= 0 {
            decimator = decimate as i32;
            offsets.push(next);
        }
        offset = next;
    }
    offsets
}

/// Saturating subtraction on naturals.
pub open spec fn spec_saturating_sub(a: int, b: int) -> int {
    if a > b { a - b } else { 0 }
}

/// Index of the last of the first `count` envelope samples that reaches the
/// threshold, or `-1` when none does.
pub open spec fn spec_last_qualifying(envelope: Seq<i16>, threshold: i16, count: int) -> int
    decreases count,
{
    if count <= 0 {
        -1
    } else if envelope[count - 1] >= threshold {
        count - 1
    } else {
        spec_last_qualifying(envelope, threshold, count - 1)
    }
}

/// The VOX hold, in native frames, at native time `now` after the first
/// `count` emitted samples: the full hang after the last qualifying sample,
/// counting down from there; without one, the previous hold counting down
/// from the span's start.
pub open spec fn spec_vox_hold_at(
    hold: u32,
    hang_frames: u32,
    offsets: Seq<u32>,
    envelope: Seq<i16>,
    threshold: i16,
    count: int,
    now: int,
) -> int {
    let last = spec_last_qualifying(envelope, threshold, count);
    if last < 0 {
        spec_saturating_sub(hold as int, now)
    } else {
        spec_saturating_sub(hang_frames as int, now - offsets[last])
    }
}

/// Advance the VOX hold across one span.
///
/// Elapsed native frames are consumed before each emitted envelope sample,
/// a qualifying sample restarts the hold at its own offset, and the trailing
/// frames are consumed last, so the carrier holds for exactly `hang_frames`
/// after the final qualifying sample however the stream is partitioned.
pub fn advance_vox_hold(
    hold: u32,
    hang_frames: u32,
    offsets: &[u32],
    envelope: &[i16],
    threshold: i16,
    native_frame_count: u32,
) -> (remaining: u32)
    requires
        envelope.len() == offsets.len(),
        forall|i: int, j: int| 0 <= i <= j < offsets.len() ==> offsets@[i] <= offsets@[j],
        forall|i: int| 0 <= i < offsets.len() ==> offsets@[i] <= native_frame_count,
    ensures
        remaining == spec_vox_hold_at(
            hold,
            hang_frames,
            offsets@,
            envelope@,
            threshold,
            offsets.len() as int,
            native_frame_count as int,
        ),
{
    let mut remaining: u32 = hold;
    let mut prior_offset: u32 = 0;
    let mut index: usize = 0;
    while index < offsets.len()
        invariant
            envelope.len() == offsets.len(),
            forall|i: int, j: int| 0 <= i <= j < offsets.len() ==> offsets@[i] <= offsets@[j],
            forall|i: int| 0 <= i < offsets.len() ==> offsets@[i] <= native_frame_count,
            index <= offsets.len(),
            index == 0 ==> prior_offset == 0,
            index > 0 ==> prior_offset == offsets@[index - 1],
            prior_offset <= native_frame_count,
            spec_last_qualifying(envelope@, threshold, index as int) < index,
            remaining == spec_vox_hold_at(
                hold,
                hang_frames,
                offsets@,
                envelope@,
                threshold,
                index as int,
                prior_offset as int,
            ),
        decreases offsets.len() - index,
    {
        let offset = offsets[index];
        proof {
            if index > 0 {
                assert(offsets@[index - 1] <= offsets@[index as int]);
            }
            let last = spec_last_qualifying(envelope@, threshold, index as int);
            if last >= 0 {
                assert(offsets@[last] <= offsets@[index as int - 1]);
            }
        }
        let elapsed = offset - prior_offset;
        remaining = remaining.saturating_sub(elapsed);
        if envelope[index] >= threshold {
            remaining = hang_frames;
        }
        prior_offset = offset;
        index = index + 1;
    }
    proof {
        let last = spec_last_qualifying(envelope@, threshold, index as int);
        if last >= 0 {
            assert(offsets@[last] <= prior_offset);
        }
    }
    let trailing = native_frame_count - prior_offset;
    remaining.saturating_sub(trailing)
}

/// Native frames (1-based, within the span) at which the fixed 20 ms
/// delay gate samples the carrier, given the frames already elapsed in the
/// current gate interval.
pub open spec fn spec_gate_boundaries(remainder: int, native_frame_count: int) -> Seq<u32> {
    let first = LEGACY_DELAY_GATE_FRAMES - remainder;
    let count = if native_frame_count < first { 0 } else { (native_frame_count - first) / (LEGACY_DELAY_GATE_FRAMES as int) + 1 };
    Seq::new(count as nat, |k: int| (first + k * LEGACY_DELAY_GATE_FRAMES) as u32)
}

/// The delay-gate boundaries that fall within one span.
pub fn delay_gate_boundaries(remainder: u32, native_frame_count: u32) -> (boundaries: Vec<u32>)
    requires
        remainder < LEGACY_DELAY_GATE_FRAMES,
    ensures
        boundaries@ == spec_gate_boundaries(remainder as int, native_frame_count as int),
{
    let first: u64 = (LEGACY_DELAY_GATE_FRAMES - remainder) as u64;
    let mut boundaries: Vec<u32> = Vec::new();
    let mut boundary: u64 = first;
    let ghost period = LEGACY_DELAY_GATE_FRAMES as int;
    while boundary <= native_frame_count as u64
        invariant
            period == 960,
            first == 960 - remainder,
            remainder < 960,
            boundary == first + boundaries.len() * period,
            boundaries.len() > 0 ==> boundary - period <= native_frame_count,
            boundaries.len() == 0 ==> boundary == first,
            forall|k: int| 0 <= k < boundaries.len() ==> #[trigger] boundaries@[k] == (first + k * period) as u32,
        decreases native_frame_count as u64 + period - boundary,
    {
        boundaries.push(boundary as u32);
        boundary = boundary + LEGACY_DELAY_GATE_FRAMES as u64;
    }
    proof {
        let n = native_frame_count as int;
        let count = boundaries.len() as int;
        if n >= first {
            assert(count >= 1);
            assert((n - first) / period == count - 1) by {
                vstd::arithmetic::div_mod::lemma_fundamental_div_mod_converse(
                    n - first, period, count - 1, n - first - (count - 1) * period);
            }
        }
    }
    assert(boundaries@ =~= spec_gate_boundaries(remainder as int, native_frame_count as int));
    boundaries
}

/// The first index from `from` on whose offset passes `boundary`, or the
/// length when none does.
pub open spec fn spec_partition_from(offsets: Seq<u32>, boundary: u32, from: int) -> int
    decreases offsets.len() - from,
{
    if from < 0 || from >= offsets.len() || offsets[from] > boundary {
        from
    } else {
        spec_partition_from(offsets, boundary, from + 1)
    }
}

/// The count of leading offsets at or before `boundary`.
pub open spec fn spec_partition(offsets: Seq<u32>, boundary: u32) -> int {
    spec_partition_from(offsets, boundary, 0)
}

/// The partition point lies between its start and the length, and grows
/// with the boundary.
proof fn lemma_partition_from(offsets: Seq<u32>, low: u32, high: u32, from: int)
    requires
        0 <= from <= offsets.len(),
        low <= high,
    ensures
        from <= spec_partition_from(offsets, low, from) <= offsets.len(),
        spec_partition_from(offsets, low, from) <= spec_partition_from(offsets, high, from),
    decreases offsets.len() - from,
{
    if from < offsets.len() && offsets[from] <= low {
        lemma_partition_from(offsets, low, high, from + 1);
    } else if from < offsets.len() && offsets[from] <= high {
        lemma_partition_from(offsets, high, high, from + 1);
    }
}

/// The count of leading offsets at or before `boundary`.
pub fn partition_point(offsets: &[u32], boundary: u32) -> (split: usize)
    requires
        forall|i: int, j: int| 0 <= i <= j < offsets.len() ==> offsets@[i] <= offsets@[j],
    ensures
        split == spec_partition(offsets@, boundary),
        split <= offsets.len(),
        forall|i: int| 0 <= i < split ==> offsets@[i] <= boundary,
        forall|i: int| split <= i < offsets.len() ==> offsets@[i] > boundary,
{
    let mut split: usize = 0;
    while split < offsets.len() && offsets[split] <= boundary
        invariant
            split <= offsets.len(),
            forall|i: int| 0 <= i < split ==> offsets@[i] <= boundary,
            spec_partition_from(offsets@, boundary, split as int) == spec_partition(offsets@, boundary),
        decreases offsets.len() - split,
    {
        split = split + 1;
    }
    split
}

/// The frames elapsed in the current delay-gate interval after a span.
pub fn next_gate_remainder(remainder: u32, native_frame_count: u32) -> (next: u32)
    ensures
        next == remainder.wrapping_add(native_frame_count) % LEGACY_DELAY_GATE_FRAMES,
{
    remainder.wrapping_add(native_frame_count) % LEGACY_DELAY_GATE_FRAMES
}


/// Observable result of one native receive span.  The CTCSS decoder peak
/// is the center slicer's half peak-to-peak level as a signed-16 code.
#[derive(Clone, Copy, Debug, PartialEq, Eq, Structural)]
pub struct ProcessResult {
    /// Native frames consumed from the span.
    pub native_frame_count: u32,
    /// Decimated 8 kHz samples emitted by the native frontend.
    pub baseband_frame_count: u32,
    /// Leading native frames muted by post-transmit blanking.
    pub blanked_native_frames: u32,
    /// Current receiver carrier decision after the configured detector.
    pub carrier_detect: bool,
    /// Current VOX envelope comparator decision.
    pub vox_detect: bool,
    /// Current CTCSS table index, or `-1` when unqualified.
    pub ctcss_decoded: i16,
    /// Whether the configured DCS decoder is qualified.
    pub dcs_valid: bool,
    /// CTCSS center-slicer half peak-to-peak level.
    pub ctcss_decoder_peak: i16,
    /// Most recent completed legacy RSSI result.
    pub rssi_peak: i16,
    /// Whether this span completed one fixed RSSI window.
    pub rssi_updated: bool,
}

/// A result with every field cleared.
pub open spec fn spec_empty_result() -> ProcessResult {
    ProcessResult {
        native_frame_count: 0,
        baseband_frame_count: 0,
        blanked_native_frames: 0,
        carrier_detect: false,
        vox_detect: false,
        ctcss_decoded: 0,
        dcs_valid: false,
        ctcss_decoder_peak: 0,
        rssi_peak: 0,
        rssi_updated: false,
    }
}

impl Default for ProcessResult {
    fn default() -> (result: Self)
        ensures
            result == spec_empty_result(),
    {
        ProcessResult {
            native_frame_count: 0,
            baseband_frame_count: 0,
            blanked_native_frames: 0,
            carrier_detect: false,
            vox_detect: false,
            ctcss_decoded: 0,
            dcs_valid: false,
            ctcss_decoder_peak: 0,
            rssi_peak: 0,
            rssi_updated: false,
        }
    }
}

/// What the native frontend and the DCS decoder report for one span: the
/// decimated baseband codes, the per-frame DSP carrier gates, the decimator
/// phase the span started from, the comparator decision, the RSSI result
/// and the DCS qualification.
#[derive(Clone, Debug)]
pub struct FrontendSpan {
    /// Native frames in the span.
    pub native_frame_count: u32,
    /// Leading native frames muted by receiver blanking.
    pub blanked_native_frames: u32,
    /// Decimator phase before the span.
    pub decimator_before: i16,
    /// Decimated baseband codes emitted by the span.
    pub baseband: Vec<i16>,
    /// Per-native-frame DSP carrier gates (nonzero: open).
    pub carrier_gates: Vec<u8>,
    /// Whether the noise comparator reports an open receiver.
    pub comparator_open: bool,
    /// Most recent completed RSSI result.
    pub rssi_peak: i16,
    /// Whether the span completed an RSSI window.
    pub rssi_updated: bool,
    /// Whether the DCS decoder is qualified after the span.
    pub dcs_valid: bool,
}

/// Preallocated, callback-owned detector pipeline after the native
/// frontend: CTCSS low-pass and center slicing, voice high-pass and
/// deemphasis, the carrier-gated audio delay, the VOX and tuning envelopes,
/// the VOX hold and the CTCSS detector bank.
pub struct ReceivePath {
    /// Largest accepted native span in frames.
    pub maximum_native_frames: u32,
    /// Capacity of the persistent baseband workspaces.
    pub baseband_capacity: usize,
    /// Native-to-baseband decimation factor.
    pub decimate: u32,
    /// CTCSS low-pass controls.
    pub lsd_controls: FilterControls,
    /// Voice high-pass controls, when voice audio is produced.
    pub hpf_controls: Option<FilterControls>,
    /// CTCSS centering and limiting.
    pub center_config: Option<CenterSlicerConfig>,
    /// Voice deemphasis.
    pub deemphasis_config: Option<DeemphasisConfig>,
    /// Carrier-tail audio delay.
    pub delay_config: Option<DelayConfig>,
    /// VOX carrier detector.
    pub vox_config: Option<VoxConfig>,
    /// Tuning envelope detector.
    pub measurement_config: Option<EnvelopeConfig>,
    /// CTCSS low-pass coefficients.
    pub lsd_coefficients: Vec<i16>,
    /// Voice high-pass coefficients.
    pub hpf_coefficients: Vec<i16>,
    /// CTCSS low-pass history.
    pub lsd_history: Vec<i16>,
    /// Voice high-pass history.
    pub hpf_history: Vec<i16>,
    /// Center-slicer extrema.
    pub center_state: center_slicer::State,
    /// Deemphasis accumulator.
    pub deemphasis_state: deemphasis_integrator::State,
    /// Delay-line cursor.
    pub delay_state: delay_line::State,
    /// VOX envelope state.
    pub vox_envelope_state: envelope_meter::State,
    /// Tuning envelope state.
    pub measurement_state: envelope_meter::State,
    /// CTCSS detector bank.
    pub ctcss_state: ctcss_receive::ReceiveState,
    /// Baseband codes of the latest span.
    pub baseband: Vec<i16>,
    /// Carrier gates of the latest span.
    pub carrier_gate: Vec<u8>,
    /// Native frames of the latest span that emitted a baseband sample.
    pub emission_offsets: Vec<u32>,
    /// CTCSS low-pass output of the latest span.
    pub lsd: Vec<i16>,
    /// Centered CTCSS signal of the latest span.
    pub centered: Vec<i16>,
    /// Limited CTCSS signal of the latest span.
    pub limited: Vec<i16>,
    /// VOX envelope of the latest span.
    pub vox_envelope: Vec<i16>,
    /// Persistent voice high-pass workspace.
    pub hpf: Vec<i16>,
    /// Persistent voice workspace.
    pub voice: Vec<i16>,
    /// Persistent delayed-voice workspace.
    pub delayed: Vec<i16>,
    /// Persistent center-slicer trace workspace.
    pub center_trace: Vec<i16>,
    /// Delay-line storage.
    pub delay_storage: Vec<i16>,
    /// Remaining receiver blanking in milliseconds.
    pub blanking_remaining_ms: i32,
    /// Sub-millisecond native frames carried by the blanking timer.
    pub blanking_remainder: u32,
    /// VOX hold in native frames after a qualifying sample.
    pub vox_hang_frames: u32,
    /// Remaining VOX hold in native frames.
    pub vox_hold_remaining_frames: u32,
    /// Native frames elapsed in the current delay-gate interval.
    pub delay_gate_native_remainder: u32,
    /// Delay output muting sampled at the last gate boundary.
    pub delay_outzero: bool,
    /// Whether the voice stages run (off while the CPU saver sleeps).
    pub voice_processing_active: bool,
    /// Center-slicer trace phase.
    pub center_trace_phase: u32,
    /// Baseband samples of the latest span.
    pub last_baseband_count: usize,
    /// Native frames of the latest span.
    pub last_native_count: usize,
    /// Result of the latest span.
    pub last_result: ProcessResult,
}

/// The FIR controls of one stage with `taps` active taps.
pub open spec fn spec_fir_controls(controls: FilterControls, taps: int) -> fir::Controls {
    fir::Controls {
        nx: taps as usize,
        input_gain: controls.input_gain,
        output_gain: controls.output_gain,
        calc_adjust: controls.calc_adjust,
    }
}

/// The deemphasis controls of a configuration.
pub open spec fn spec_deemphasis_controls(config: DeemphasisConfig) -> deemphasis_integrator::Controls {
    deemphasis_integrator::Controls {
        output_coefficient: config.output_coefficient,
        feedback_coefficient: config.feedback_coefficient,
        output_gain: config.output_gain,
    }
}

impl ReceivePath {
    /// Internal consistency of a constructed path.
    pub open spec fn wf(&self) -> bool {
        &&& self.decimate == 6
        &&& 1 <= self.maximum_native_frames
        &&& self.baseband_capacity == (self.maximum_native_frames + 2 * self.decimate - 2) / (self.decimate as int)
        &&& self.lsd_history@.len() == self.lsd_coefficients@.len()
        &&& 1 <= self.lsd_coefficients@.len() <= fir::MAX_TAPS
        &&& self.lsd_controls.calc_adjust != 0
        &&& self.hpf_controls matches Some(c) ==> c.calc_adjust != 0
            && self.hpf_history@.len() == self.hpf_coefficients@.len()
            && 1 <= self.hpf_coefficients@.len() <= fir::MAX_TAPS
        &&& self.hpf_controls is None ==> self.deemphasis_config is None && self.delay_config is None
        &&& self.delay_config matches Some(d) ==> self.delay_storage@.len() == d.storage_capacity
            && 1 <= d.storage_capacity && d.lead <= d.storage_capacity
        &&& ctcss_receive::spec_receiver_wf(self.ctcss_state@)
        &&& self.ctcss_state@.tone_mask != 0 ==> self.center_config is Some
        &&& self.hpf@.len() == self.baseband_capacity
        &&& self.voice@.len() == self.baseband_capacity
        &&& self.delayed@.len() == self.baseband_capacity
        &&& self.center_trace@.len() == self.baseband_capacity
        &&& self.delay_gate_native_remainder < LEGACY_DELAY_GATE_FRAMES
        &&& self.blanking_remainder < FRAMES_PER_MILLISECOND
        &&& self.last_baseband_count <= self.baseband_capacity
        &&& self.baseband@.len() == self.last_baseband_count
        &&& self.carrier_gate@.len() == self.last_native_count
    }
}

/// A vector of `length` zero codes.
fn zeroed<T: Copy>(length: usize, zero: T) -> (buffer: Vec<T>)
    ensures
        buffer@ == Seq::new(length as nat, |i: int| zero),
{
    let mut buffer: Vec<T> = Vec::new();
    let mut index: usize = 0;
    while index < length
        invariant
            index <= length,
            buffer@ == Seq::new(index as nat, |i: int| zero),
        decreases length - index,
    {
        buffer.push(zero);
        index = index + 1;
        assert(buffer@ =~= Seq::new(index as nat, |i: int| zero));
    }
    buffer
}

/// A copy of a slice.
fn copied<T: Copy>(source: &[T]) -> (copy: Vec<T>)
    ensures
        copy@ == source@,
{
    let mut copy: Vec<T> = Vec::new();
    let mut index: usize = 0;
    while index < source.len()
        invariant
            index <= source.len(),
            copy@ == source@.subrange(0, index as int),
        decreases source.len() - index,
    {
        copy.push(source[index]);
        index = index + 1;
        assert(copy@ =~= source@.subrange(0, index as int));
    }
    assert(copy@ =~= source@);
    copy
}


/// Whether a configuration is accepted and its tables fit the FIR tap count.
pub open spec fn spec_path_config_valid(config: Config) -> bool {
    &&& spec_config_valid(config)
    &&& config.lsd_filter.coefficients@.len() <= fir::MAX_TAPS
    &&& config.hpf_filter matches Some(filter) ==> filter.coefficients@.len() <= fir::MAX_TAPS
}

impl ReceivePath {
    /// Construct an owned receiver and preallocate its workspaces.
    ///
    /// Coefficient tables are copied, histories start at zero, the CTCSS and
    /// VOX detectors are configured and every timer starts expired.
    pub fn new(config: Config<'_>) -> (result: Result<Self, i32>)
        ensures
            result is Ok <==> spec_path_config_valid(config),
            result matches Err(code) ==> code == RADIO_INVALID_ARGUMENT,
            result matches Ok(path) ==> ({
                let decimate = config.frontend.decimate as int;
                &&& path.wf()
                &&& path.maximum_native_frames == config.maximum_native_frames
                &&& path.decimate == config.frontend.decimate
                &&& path.baseband_capacity == (config.maximum_native_frames + 2 * decimate - 2) / decimate
                &&& path.lsd_coefficients@ == config.lsd_filter.coefficients@
                &&& path.lsd_history@ == Seq::new(config.lsd_filter.coefficients@.len(), |i: int| 0i16)
                &&& path.lsd_controls == (FilterControls {
                    input_gain: config.lsd_filter.input_gain,
                    output_gain: config.lsd_filter.output_gain,
                    calc_adjust: config.lsd_filter.calc_adjust,
                })
                &&& match config.hpf_filter {
                    Some(filter) => {
                        &&& path.hpf_controls == Some(FilterControls {
                            input_gain: filter.input_gain,
                            output_gain: filter.output_gain,
                            calc_adjust: filter.calc_adjust,
                        })
                        &&& path.hpf_coefficients@ == filter.coefficients@
                        &&& path.hpf_history@ == Seq::new(filter.coefficients@.len(), |i: int| 0i16)
                    },
                    None => path.hpf_controls is None,
                }
                &&& path.center_config == config.center_slicer
                &&& path.deemphasis_config == config.deemphasis
                &&& path.delay_config == config.delay
                &&& path.vox_config == config.vox
                &&& path.measurement_config == config.measurement
                &&& path.ctcss_state@ == match config.ctcss {
                    Some(ctcss) => ctcss_receive::spec_configured_model(ctcss.tone_mask, ctcss.relax),
                    None => ctcss_receive::spec_configured_model(0, false),
                }
                &&& path.vox_hang_frames == match config.vox {
                    Some(vox) => if vox.hang_time_ms > 0 { vox.hang_time_ms * FRAMES_PER_MILLISECOND } else { 0 },
                    None => 0,
                }
                &&& path.delay_storage@ == Seq::new(
                    match config.delay { Some(delay) => delay.storage_capacity as nat, None => 0 },
                    |i: int| 0i16,
                )
                &&& path.center_state == center_slicer::State { maximum: 0, minimum: 0, peak: 0, upper_decay_counter: 0, lower_decay_counter: 0 }
                &&& path.deemphasis_state.accumulator == 0
                &&& path.delay_state == (delay_line::State { input_index: 0, dirty: 0 })
                &&& path.vox_envelope_state == envelope_meter::State { maximum: 0, minimum: 0, peak: 0, upper_decay_counter: 0, lower_decay_counter: 0 }
                &&& path.measurement_state == envelope_meter::State { maximum: 0, minimum: 0, peak: 0, upper_decay_counter: 0, lower_decay_counter: 0 }
                &&& path.hpf@ == Seq::new(path.baseband_capacity as nat, |i: int| 0i16)
                &&& path.voice@ == Seq::new(path.baseband_capacity as nat, |i: int| 0i16)
                &&& path.delayed@ == Seq::new(path.baseband_capacity as nat, |i: int| 0i16)
                &&& path.center_trace@ == Seq::new(path.baseband_capacity as nat, |i: int| 0i16)
                &&& path.baseband@.len() == 0
                &&& path.carrier_gate@.len() == 0
                &&& path.blanking_remaining_ms == 0
                &&& path.blanking_remainder == 0
                &&& path.vox_hold_remaining_frames == 0
                &&& path.delay_gate_native_remainder == 0
                &&& !path.delay_outzero
                &&& path.voice_processing_active
                &&& path.center_trace_phase == 0
                &&& path.last_baseband_count == 0
                &&& path.last_native_count == 0
                &&& path.last_result == spec_empty_result()
            }),
    {
        let sizes = match setup(&config) {
            Ok(sizes) => sizes,
            Err(code) => {
                return Err(code);
            },
        };
        if config.lsd_filter.coefficients.len() > fir::MAX_TAPS {
            return Err(RADIO_INVALID_ARGUMENT);
        }
        match config.hpf_filter {
            Some(filter) => {
                if filter.coefficients.len() > fir::MAX_TAPS {
                    return Err(RADIO_INVALID_ARGUMENT);
                }
            },
            None => {},
        }
        assert(config.frontend.decimate == 6) by (nonlinear_arith)
            requires
                config.frontend.decimate > 0,
                48_000int / (config.frontend.decimate as int) == 8_000int;
        assert(sizes.baseband_capacity <= 0x1_0000_0000) by (nonlinear_arith)
            requires
                sizes.baseband_capacity == (config.maximum_native_frames + 2 * 6 - 2) / 6int,
                config.maximum_native_frames <= u32::MAX;
        let baseband_capacity = sizes.baseband_capacity as usize;
        let mut ctcss_state = ctcss_receive::ReceiveState::new();
        match config.ctcss {
            Some(ctcss) => ctcss_state.configure(ctcss.tone_mask, ctcss.relax),
            None => ctcss_state.configure(0, false),
        }
        let hpf_coefficients: Vec<i16> = match config.hpf_filter {
            Some(filter) => copied(filter.coefficients),
            None => Vec::new(),
        };
        let hpf_history: Vec<i16> = match config.hpf_filter {
            Some(filter) => zeroed(filter.coefficients.len(), 0i16),
            None => Vec::new(),
        };
        let delay_capacity: usize = match config.delay {
            Some(delay) => delay.storage_capacity as usize,
            None => 0,
        };
        let path = ReceivePath {
            maximum_native_frames: config.maximum_native_frames,
            baseband_capacity,
            decimate: config.frontend.decimate,
            lsd_controls: sizes.lsd_controls,
            hpf_controls: sizes.hpf_controls,
            center_config: config.center_slicer,
            deemphasis_config: config.deemphasis,
            delay_config: config.delay,
            vox_config: config.vox,
            measurement_config: config.measurement,
            lsd_coefficients: copied(config.lsd_filter.coefficients),
            hpf_coefficients,
            lsd_history: zeroed(config.lsd_filter.coefficients.len(), 0i16),
            hpf_history,
            center_state: center_slicer::State::default(),
            deemphasis_state: deemphasis_integrator::State::default(),
            delay_state: delay_line::State::default(),
            vox_envelope_state: envelope_meter::State::default(),
            measurement_state: envelope_meter::State::default(),
            ctcss_state,
            baseband: Vec::new(),
            carrier_gate: Vec::new(),
            emission_offsets: Vec::new(),
            lsd: Vec::new(),
            centered: Vec::new(),
            limited: Vec::new(),
            vox_envelope: Vec::new(),
            hpf: zeroed(baseband_capacity, 0i16),
            voice: zeroed(baseband_capacity, 0i16),
            delayed: zeroed(baseband_capacity, 0i16),
            center_trace: zeroed(baseband_capacity, 0i16),
            delay_storage: zeroed(delay_capacity, 0i16),
            blanking_remaining_ms: 0,
            blanking_remainder: 0,
            vox_hang_frames: sizes.vox_hang_frames,
            vox_hold_remaining_frames: 0,
            delay_gate_native_remainder: 0,
            delay_outzero: false,
            voice_processing_active: true,
            center_trace_phase: 0,
            last_baseband_count: 0,
            last_native_count: 0,
            last_result: ProcessResult::default(),
        };
        proof {
            assert(0u64 & ctcss_receive::TONE_MASK == 0) by (bit_vector);
        }
        Ok(path)
    }

    /// Arm post-transmit receiver blanking in whole milliseconds; arming
    /// restarts the sub-millisecond remainder and a nonpositive duration
    /// leaves no protection.
    pub fn arm_receive_blanking(&mut self, duration_ms: i32)
        requires
            old(self).wf(),
        ensures
            final(self).wf(),
            *final(self) == (ReceivePath {
                blanking_remaining_ms: if duration_ms > 0 { duration_ms } else { 0 },
                blanking_remainder: 0,
                ..*old(self)
            }),
    {
        self.blanking_remaining_ms = if duration_ms > 0 { duration_ms } else { 0 };
        self.blanking_remainder = 0;
    }

    /// Enable or freeze the voice high-pass and deemphasis stages.
    pub fn set_voice_processing_active(&mut self, active: bool)
        requires
            old(self).wf(),
        ensures
            final(self).wf(),
            *final(self) == (ReceivePath { voice_processing_active: active, ..*old(self) }),
    {
        self.voice_processing_active = active;
    }

    /// The baseband workspace capacity allocated at setup.
    pub fn baseband_capacity(&self) -> (capacity: usize)
        ensures
            capacity == self.baseband_capacity,
    {
        self.baseband_capacity
    }

    /// The result of the latest span.
    pub fn last_result(&self) -> (result: ProcessResult)
        ensures
            result == self.last_result,
    {
        self.last_result
    }
}


impl ReceivePath {
    /// Advance receiver blanking over a nonempty span and return how many
    /// leading native frames the caller mutes on the receive channel.
    ///
    /// An expired timer mutes nothing and leaves the timer alone; otherwise
    /// the span's elapsed milliseconds count the timer down and carry the
    /// sub-millisecond remainder, as [`rx_blanking::spec_blank_span`] states.
    pub fn apply_receive_blanking(&mut self, native_frame_count: u32) -> (blanked: u32)
        requires
            old(self).wf(),
        ensures
            final(self).wf(),
            old(self).blanking_remaining_ms <= 0 ==> blanked == 0 && *final(self) == *old(self),
            old(self).blanking_remaining_ms > 0 ==> ({
                let (frames, remaining, carried) = rx_blanking::spec_blank_span(
                    old(self).blanking_remaining_ms as int,
                    old(self).blanking_remainder,
                    native_frame_count,
                );
                &&& blanked == frames
                &&& *final(self) == (ReceivePath {
                    blanking_remaining_ms: remaining as i32,
                    blanking_remainder: carried as u32,
                    ..*old(self)
                })
            }),
    {
        if self.blanking_remaining_ms <= 0 {
            return 0;
        }
        let remainder_before = self.blanking_remainder;
        let mut remainder = self.blanking_remainder;
        let elapsed_ms = timer::elapsed_ms(&mut remainder, native_frame_count);
        self.blanking_remainder = remainder;
        let mut state = rx_blanking::RxBlankingState { remaining_ms: self.blanking_remaining_ms, blanked_frame_count: 0 };
        let input = rx_blanking::RxBlankingInput {
            elapsed_ms,
            native_frame_count,
            sample_remainder_before: remainder_before,
        };
        let advanced = rx_blanking::advance(&input, &mut state);
        assert(advanced is Ok);
        self.blanking_remaining_ms = state.remaining_ms;
        state.blanked_frame_count
    }
}


/// A FIR span emits one output per input.
pub proof fn lemma_fir_outputs_len(history: Seq<i16>, inputs: Seq<i16>, coefficients: Seq<i16>, controls: fir::Controls)
    ensures
        fir::spec_run_outputs(history, inputs, coefficients, controls).len() == inputs.len(),
    decreases inputs.len(),
{
    if inputs.len() > 0 {
        lemma_fir_outputs_len(history, inputs.drop_last(), coefficients, controls);
    }
}

/// A FIR span keeps the history length.
pub proof fn lemma_fir_history_len(history: Seq<i16>, inputs: Seq<i16>, controls: fir::Controls)
    ensures
        fir::spec_run_history(history, inputs, controls).len() == history.len(),
    decreases inputs.len(),
{
    if inputs.len() > 0 {
        lemma_fir_history_len(history, inputs.drop_last(), controls);
    }
}

/// A deemphasis span emits one output per input.
pub proof fn lemma_deemphasis_outputs_len(accumulator: i32, input: Seq<i16>, controls: deemphasis_integrator::Controls, count: int)
    requires
        count >= 0,
    ensures
        deemphasis_integrator::spec_outputs(accumulator, input, controls, count).len() == count,
    decreases count,
{
    if count > 0 {
        lemma_deemphasis_outputs_len(accumulator, input, controls, count - 1);
    }
}

/// A persistent workspace after its leading samples are replaced.
pub open spec fn spec_overwrite(buffer: Seq<i16>, prefix: Seq<i16>) -> Seq<i16> {
    prefix + buffer.subrange(prefix.len() as int, buffer.len() as int)
}

/// Replace the leading samples of a persistent workspace.
fn overwrite_prefix(buffer: &mut Vec<i16>, prefix: &Vec<i16>)
    requires
        prefix.len() <= old(buffer).len(),
    ensures
        final(buffer)@ == spec_overwrite(old(buffer)@, prefix@),
{
    let ghost start = buffer@;
    let mut index: usize = 0;
    while index < prefix.len()
        invariant
            prefix.len() <= start.len(),
            index <= prefix.len(),
            buffer@.len() == start.len(),
            forall|k: int| 0 <= k < index ==> #[trigger] buffer@[k] == prefix@[k],
            forall|k: int| index <= k < start.len() ==> #[trigger] buffer@[k] == start[k],
        decreases prefix.len() - index,
    {
        buffer.set(index, prefix[index]);
        index = index + 1;
    }
    assert(buffer@ =~= spec_overwrite(start, prefix@));
}

/// The CTCSS low-pass and center-slicer part of a receive path.
pub struct CtcssStage {
    /// Configured CTCSS tones.
    pub tone_mask: u64,
    /// Low-pass history.
    pub lsd_history: Seq<i16>,
    /// Low-pass coefficients.
    pub lsd_coefficients: Seq<i16>,
    /// Low-pass controls.
    pub lsd_controls: FilterControls,
    /// Center-slicer configuration.
    pub center_config: Option<CenterSlicerConfig>,
    /// Center-slicer extrema.
    pub center_state: center_slicer::State,
    /// Persistent trace workspace.
    pub center_trace: Seq<i16>,
    /// Trace phase.
    pub center_trace_phase: u32,
    /// Low-pass output of the latest span.
    pub lsd: Seq<i16>,
    /// Centered signal of the latest span.
    pub centered: Seq<i16>,
    /// Limited signal of the latest span.
    pub limited: Seq<i16>,
}

impl CtcssStage {
    /// FIR controls of the low-pass stage.
    pub open spec fn lsd_fir(self) -> fir::Controls {
        spec_fir_controls(self.lsd_controls, self.lsd_coefficients.len() as int)
    }

    /// Low-pass output of a baseband span.
    pub open spec fn lsd_output(self, baseband: Seq<i16>) -> Seq<i16> {
        fir::spec_run_outputs(self.lsd_history, baseband, self.lsd_coefficients, self.lsd_fir())
    }

    /// The center-slicer tracker after the first `count` low-pass samples.
    pub open spec fn tracker(self, lsd: Seq<i16>, count: int) -> center_slicer::Tracker {
        let center = self.center_config.unwrap();
        center_slicer::spec_tracker_after(
            center_slicer::spec_start(self.center_state),
            lsd,
            center.setpoint as i32,
            center.decay_factor,
            count,
        )
    }
}

/// The CTCSS stages after a span: advanced while the CTCSS decoder is
/// configured, else untouched.
pub open spec fn spec_ctcss_step(before: CtcssStage, after: CtcssStage, baseband: Seq<i16>) -> bool {
    if before.tone_mask != 0 {
        let lsd = before.lsd_output(baseband);
        let center = before.center_config.unwrap();
        let count = baseband.len() as int;
        &&& after.lsd == lsd
        &&& after.lsd_history == fir::spec_run_history(before.lsd_history, baseband, before.lsd_fir())
        &&& after.center_state == center_slicer::spec_end_state(before.center_state, before.tracker(lsd, count))
        &&& after.centered == Seq::new(count as nat, |k: int| center_slicer::spec_centered_at(
            before.center_state, lsd, center.setpoint as i32, center.decay_factor, k) as i16)
        &&& after.limited == Seq::new(count as nat, |k: int| center_slicer::spec_limit(
            center_slicer::spec_centered_at(before.center_state, lsd, center.setpoint as i32, center.decay_factor, k),
            center.limit) as i16)
        &&& center.trace ==> after.center_trace == spec_overwrite(
            before.center_trace,
            Seq::new(count as nat, |k: int| center_slicer::spec_trace_value(
                before.tracker(lsd, k + 1),
                before.center_trace_phase.wrapping_add(k as u32))),
        )
        &&& center.trace ==> after.center_trace_phase == before.center_trace_phase.wrapping_add(count as u32)
        &&& !center.trace ==> after.center_trace == before.center_trace
            && after.center_trace_phase == before.center_trace_phase
        &&& after.tone_mask == before.tone_mask
        &&& after.lsd_coefficients == before.lsd_coefficients
        &&& after.lsd_controls == before.lsd_controls
        &&& after.center_config == before.center_config
    } else {
        &&& after.lsd == before.lsd
        &&& after.lsd_history == before.lsd_history
        &&& after.center_state == before.center_state
        &&& after.centered == before.centered
        &&& after.limited == before.limited
        &&& after.center_trace == before.center_trace
        &&& after.center_trace_phase == before.center_trace_phase
        &&& after.tone_mask == before.tone_mask
        &&& after.lsd_coefficients == before.lsd_coefficients
        &&& after.lsd_controls == before.lsd_controls
        &&& after.center_config == before.center_config
    }
}

/// The voice high-pass and deemphasis part of a receive path.
pub struct VoiceStage {
    /// High-pass controls, when voice audio is produced.
    pub hpf_controls: Option<FilterControls>,
    /// Whether the voice stages are awake.
    pub active: bool,
    /// High-pass history.
    pub hpf_history: Seq<i16>,
    /// High-pass coefficients.
    pub hpf_coefficients: Seq<i16>,
    /// Deemphasis configuration.
    pub deemphasis_config: Option<DeemphasisConfig>,
    /// Deemphasis accumulator.
    pub accumulator: i32,
    /// Persistent high-pass workspace.
    pub hpf: Seq<i16>,
    /// Persistent voice workspace.
    pub voice: Seq<i16>,
}

impl VoiceStage {
    /// FIR controls of the high-pass stage.
    pub open spec fn hpf_fir(self) -> fir::Controls {
        spec_fir_controls(self.hpf_controls.unwrap(), self.hpf_coefficients.len() as int)
    }

    /// High-pass output of a baseband span.
    pub open spec fn hpf_output(self, baseband: Seq<i16>) -> Seq<i16> {
        fir::spec_run_outputs(self.hpf_history, baseband, self.hpf_coefficients, self.hpf_fir())
    }

    /// Voice output of a baseband span: the high-pass output, deemphasized
    /// when configured.
    pub open spec fn voice_output(self, baseband: Seq<i16>) -> Seq<i16> {
        let hpf = self.hpf_output(baseband);
        match self.deemphasis_config {
            Some(d) => deemphasis_integrator::spec_outputs(self.accumulator, hpf, spec_deemphasis_controls(d), hpf.len() as int),
            None => hpf,
        }
    }
}

/// The voice stages after a span: advanced while they run, else untouched.
pub open spec fn spec_voice_step(before: VoiceStage, after: VoiceStage, baseband: Seq<i16>) -> bool {
    &&& after.hpf_controls == before.hpf_controls
    &&& after.active == before.active
    &&& after.hpf_coefficients == before.hpf_coefficients
    &&& after.deemphasis_config == before.deemphasis_config
    &&& if before.hpf_controls is Some && before.active {
        let hpf = before.hpf_output(baseband);
        &&& after.hpf_history == fir::spec_run_history(before.hpf_history, baseband, before.hpf_fir())
        &&& after.hpf == spec_overwrite(before.hpf, hpf)
        &&& after.voice == spec_overwrite(before.voice, before.voice_output(baseband))
        &&& after.accumulator == match before.deemphasis_config {
            Some(d) => deemphasis_integrator::spec_accumulator_after(
                before.accumulator, hpf, spec_deemphasis_controls(d), hpf.len() as int),
            None => before.accumulator,
        }
    } else {
        &&& after.hpf_history == before.hpf_history
        &&& after.hpf == before.hpf
        &&& after.voice == before.voice
        &&& after.accumulator == before.accumulator
    }
}

impl ReceivePath {
    /// The CTCSS stages of this path.
    pub open spec fn ctcss_view(&self) -> CtcssStage {
        CtcssStage {
            tone_mask: self.ctcss_state@.tone_mask,
            lsd_history: self.lsd_history@,
            lsd_coefficients: self.lsd_coefficients@,
            lsd_controls: self.lsd_controls,
            center_config: self.center_config,
            center_state: self.center_state,
            center_trace: self.center_trace@,
            center_trace_phase: self.center_trace_phase,
            lsd: self.lsd@,
            centered: self.centered@,
            limited: self.limited@,
        }
    }

    /// The voice stages of this path.
    pub open spec fn voice_view(&self) -> VoiceStage {
        VoiceStage {
            hpf_controls: self.hpf_controls,
            active: self.voice_processing_active,
            hpf_history: self.hpf_history@,
            hpf_coefficients: self.hpf_coefficients@,
            deemphasis_config: self.deemphasis_config,
            accumulator: self.deemphasis_state.accumulator,
            hpf: self.hpf@,
            voice: self.voice@,
        }
    }

    /// Whether the CTCSS low-pass and center slicer run.
    pub open spec fn spec_ctcss_stages_run(&self) -> bool {
        self.ctcss_state@.tone_mask != 0
    }

    /// The CTCSS stages after a span.
    pub open spec fn spec_ctcss_stage(&self, next: &Self, baseband: Seq<i16>) -> bool {
        spec_ctcss_step(self.ctcss_view(), next.ctcss_view(), baseband)
    }

    /// The voice stages after a span.
    pub open spec fn spec_voice_stage(&self, next: &Self, baseband: Seq<i16>) -> bool {
        spec_voice_step(self.voice_view(), next.voice_view(), baseband)
    }

    /// The baseband stages: CTCSS low-pass into the center slicer while the
    /// CTCSS decoder is configured, and voice high-pass into deemphasis (or
    /// straight to the voice workspace) while the voice stages run.
    fn process_baseband(&mut self, baseband: &[i16])
        requires
            old(self).wf(),
            baseband.len() <= old(self).baseband_capacity,
        ensures
            final(self).wf(),
            old(self).spec_ctcss_stage(final(self), baseband@),
            old(self).spec_voice_stage(final(self), baseband@),
            final(self).maximum_native_frames == old(self).maximum_native_frames,
            final(self).baseband_capacity == old(self).baseband_capacity,
            final(self).decimate == old(self).decimate,
            final(self).lsd_controls == old(self).lsd_controls,
            final(self).hpf_controls == old(self).hpf_controls,
            final(self).center_config == old(self).center_config,
            final(self).deemphasis_config == old(self).deemphasis_config,
            final(self).delay_config == old(self).delay_config,
            final(self).vox_config == old(self).vox_config,
            final(self).measurement_config == old(self).measurement_config,
            final(self).lsd_coefficients@ == old(self).lsd_coefficients@,
            final(self).hpf_coefficients@ == old(self).hpf_coefficients@,
            final(self).delay_state == old(self).delay_state,
            final(self).delay_storage@ == old(self).delay_storage@,
            final(self).delayed@ == old(self).delayed@,
            final(self).vox_envelope_state == old(self).vox_envelope_state,
            final(self).measurement_state == old(self).measurement_state,
            final(self).vox_envelope@ == old(self).vox_envelope@,
            final(self).ctcss_state@ == old(self).ctcss_state@,
            final(self).baseband@ == old(self).baseband@,
            final(self).carrier_gate@ == old(self).carrier_gate@,
            final(self).emission_offsets@ == old(self).emission_offsets@,
            final(self).blanking_remaining_ms == old(self).blanking_remaining_ms,
            final(self).blanking_remainder == old(self).blanking_remainder,
            final(self).vox_hang_frames == old(self).vox_hang_frames,
            final(self).vox_hold_remaining_frames == old(self).vox_hold_remaining_frames,
            final(self).delay_gate_native_remainder == old(self).delay_gate_native_remainder,
            final(self).delay_outzero == old(self).delay_outzero,
            final(self).voice_processing_active == old(self).voice_processing_active,
            final(self).last_baseband_count == old(self).last_baseband_count,
            final(self).last_native_count == old(self).last_native_count,
            final(self).last_result == old(self).last_result,
    {
        let count = baseband.len();
        if self.ctcss_state.enabled() {
            let controls = fir::Controls {
                nx: self.lsd_coefficients.len(),
                input_gain: self.lsd_controls.input_gain,
                output_gain: self.lsd_controls.output_gain,
                calc_adjust: self.lsd_controls.calc_adjust,
            };
            let mut lsd = zeroed(count, 0i16);
            let filtered = fir::process_codes(baseband, &mut lsd, &mut self.lsd_history, &self.lsd_coefficients, controls);
            assert(filtered is Ok);
            proof {
                lemma_fir_outputs_len(old(self).lsd_history@, baseband@, old(self).lsd_coefficients@, controls);
                lemma_fir_history_len(old(self).lsd_history@, baseband@, controls);
            }
            let center = match self.center_config {
                Some(center) => center,
                None => {
                    assert(false);
                    return;
                },
            };
            let mut centered = zeroed(count, 0i16);
            let mut limited = zeroed(count, 0i16);
            let mut trace = zeroed(count, 0i16);
            center_slicer::process_with_trace(
                &lsd,
                &mut centered,
                &mut limited,
                center.limit,
                center.setpoint,
                center.decay_factor,
                &mut self.center_state,
                center.trace,
                &mut trace,
                &mut self.center_trace_phase,
            );
            if center.trace {
                overwrite_prefix(&mut self.center_trace, &trace);
            }
            self.lsd = lsd;
            self.centered = centered;
            self.limited = limited;
            assert(self.centered@ =~= Seq::new(count as nat, |k: int| center_slicer::spec_centered_at(
                old(self).center_state, self.lsd@, center.setpoint as i32, center.decay_factor, k) as i16));
            assert(self.limited@ =~= Seq::new(count as nat, |k: int| center_slicer::spec_limit(
                center_slicer::spec_centered_at(old(self).center_state, self.lsd@, center.setpoint as i32, center.decay_factor, k),
                center.limit) as i16));
            if center.trace {
                assert(trace@ =~= Seq::new(count as nat, |k: int| center_slicer::spec_trace_value(
                    old(self).ctcss_view().tracker(self.lsd@, k + 1),
                    old(self).center_trace_phase.wrapping_add(k as u32))));
            }
        }
        if self.voice_processing_active {
            match self.hpf_controls {
                Some(hpf_controls) => {
                    let controls = fir::Controls {
                        nx: self.hpf_coefficients.len(),
                        input_gain: hpf_controls.input_gain,
                        output_gain: hpf_controls.output_gain,
                        calc_adjust: hpf_controls.calc_adjust,
                    };
                    let mut hpf = zeroed(count, 0i16);
                    let filtered = fir::process_codes(baseband, &mut hpf, &mut self.hpf_history, &self.hpf_coefficients, controls);
                    assert(filtered is Ok);
                    proof {
                        lemma_fir_outputs_len(old(self).hpf_history@, baseband@, old(self).hpf_coefficients@, controls);
                        lemma_fir_history_len(old(self).hpf_history@, baseband@, controls);
                    }
                    match self.deemphasis_config {
                        Some(deemphasis) => {
                            let mut voice = zeroed(count, 0i16);
                            let deemphasis_controls = deemphasis_integrator::Controls {
                                output_coefficient: deemphasis.output_coefficient,
                                feedback_coefficient: deemphasis.feedback_coefficient,
                                output_gain: deemphasis.output_gain,
                            };
                            deemphasis_integrator::process(&hpf, &mut voice, deemphasis_controls, &mut self.deemphasis_state);
                            proof {
                                lemma_deemphasis_outputs_len(
                                    old(self).deemphasis_state.accumulator, hpf@, deemphasis_controls, count as int);
                            }
                            overwrite_prefix(&mut self.voice, &voice);
                        },
                        None => {
                            overwrite_prefix(&mut self.voice, &hpf);
                        },
                    }
                    overwrite_prefix(&mut self.hpf, &hpf);
                },
                None => {},
            }
        }
    }
}


/// Delay-line progress through the segments of one span.
pub struct DelayRun {
    /// Delay-line storage.
    pub storage: Seq<i16>,
    /// Delay-line cursor.
    pub state: delay_line::State,
    /// The delayed-voice workspace.
    pub delayed: Seq<i16>,
    /// Output muting for the next segment.
    pub outzero: bool,
    /// First sample of the next segment.
    pub start: int,
}

/// One delay segment `[run.start, end)` of `input`, as the delay line
/// processes it with the current muting.
pub open spec fn spec_delay_segment(run: DelayRun, input: Seq<i16>, end: int, lead: u32) -> DelayRun {
    let count = end - run.start;
    let segment = input.subrange(run.start, end);
    let before = run.delayed.subrange(0, run.start);
    let after = run.delayed.subrange(end, run.delayed.len() as int);
    if count <= 0 {
        run
    } else if run.outzero {
        if run.state.dirty == 0 {
            DelayRun { start: end, ..run }
        } else {
            DelayRun {
                storage: Seq::new(run.storage.len(), |i: int| 0i16),
                state: delay_line::State { input_index: 0, dirty: 0 },
                delayed: before + Seq::new(count as nat, |i: int| 0i16) + after,
                outzero: run.outzero,
                start: end,
            }
        }
    } else {
        let index = run.state.input_index as int;
        DelayRun {
            storage: delay_line::spec_storage_after(run.storage, segment, index, count),
            state: delay_line::State {
                input_index: delay_line::spec_cursor_after(index, run.storage.len() as int, count) as u32,
                dirty: 1,
            },
            delayed: before + Seq::new(count as nat, |k: int| delay_line::spec_delayed(run.storage, segment, index, lead as int, k))
                + after,
            outzero: run.outzero,
            start: end,
        }
    }
}

/// The delay run after the segments ending at the first `k` gate
/// boundaries, each boundary then sampling the carrier gate for muting.
pub open spec fn spec_delay_gated(
    run: DelayRun,
    input: Seq<i16>,
    lead: u32,
    boundaries: Seq<u32>,
    offsets: Seq<u32>,
    gates: Seq<u8>,
    k: int,
) -> DelayRun
    decreases k,
{
    if k <= 0 {
        run
    } else {
        let previous = spec_delay_gated(run, input, lead, boundaries, offsets, gates, k - 1);
        let boundary = boundaries[k - 1];
        let segment = spec_delay_segment(previous, input, spec_partition(offsets, boundary), lead);
        DelayRun { outzero: gates[boundary - 1] == 0, ..segment }
    }
}

/// A copy of `source[start..end]`.
fn copy_range(source: &Vec<i16>, start: usize, end: usize) -> (copy: Vec<i16>)
    requires
        start <= end <= source.len(),
    ensures
        copy@ == source@.subrange(start as int, end as int),
{
    let mut copy: Vec<i16> = Vec::new();
    let mut index: usize = start;
    while index < end
        invariant
            start <= index <= end <= source.len(),
            copy@ == source@.subrange(start as int, index as int),
        decreases end - index,
    {
        copy.push(source[index]);
        index = index + 1;
        assert(copy@ =~= source@.subrange(start as int, index as int));
    }
    copy
}

/// Replace `buffer[start..start + segment.len()]`.
fn overwrite_range(buffer: &mut Vec<i16>, start: usize, segment: &Vec<i16>)
    requires
        start + segment.len() <= old(buffer).len(),
    ensures
        final(buffer)@ == old(buffer)@.subrange(0, start as int) + segment@
            + old(buffer)@.subrange(start + segment.len(), old(buffer)@.len() as int),
{
    let ghost initial = buffer@;
    let length = buffer.len();
    let mut index: usize = 0;
    while index < segment.len()
        invariant
            length == initial.len(),
            start + segment.len() <= length,
            index <= segment.len(),
            buffer@.len() == initial.len(),
            forall|k: int| 0 <= k < start ==> #[trigger] buffer@[k] == initial[k],
            forall|k: int| start <= k < start + index ==> #[trigger] buffer@[k] == segment@[k - start],
            forall|k: int| start + index <= k < initial.len() ==> #[trigger] buffer@[k] == initial[k],
        decreases segment.len() - index,
    {
        buffer.set(start + index, segment[index]);
        index = index + 1;
    }
    let ghost expected = initial.subrange(0, start as int) + segment@
        + initial.subrange(start + segment.len(), initial.len() as int);
    assert forall|k: int| 0 <= k < initial.len() implies #[trigger] buffer@[k] == expected[k] by {
        if k < start {
        } else if k < start + segment.len() {
        } else {
        }
    }
    assert(buffer@ =~= expected);
}

impl ReceivePath {
    /// The delay run at the start of a span.
    pub open spec fn spec_delay_run(&self) -> DelayRun {
        DelayRun {
            storage: self.delay_storage@,
            state: self.delay_state,
            delayed: self.delayed@,
            outzero: self.delay_outzero,
            start: 0,
        }
    }

    /// The delay stage's input workspace: deemphasized voice when
    /// configured, else the high-pass output.
    pub open spec fn spec_delay_input(&self) -> Seq<i16> {
        if self.deemphasis_config is Some { self.voice@ } else { self.hpf@ }
    }

    /// Everything but the delay line's storage, cursor and output agrees.
    pub open spec fn spec_same_but_delay(&self, other: &Self) -> bool {
        &&& self.maximum_native_frames == other.maximum_native_frames
        &&& self.baseband_capacity == other.baseband_capacity
        &&& self.decimate == other.decimate
        &&& self.lsd_controls == other.lsd_controls
        &&& self.hpf_controls == other.hpf_controls
        &&& self.center_config == other.center_config
        &&& self.deemphasis_config == other.deemphasis_config
        &&& self.delay_config == other.delay_config
        &&& self.vox_config == other.vox_config
        &&& self.measurement_config == other.measurement_config
        &&& self.lsd_coefficients@ == other.lsd_coefficients@
        &&& self.hpf_coefficients@ == other.hpf_coefficients@
        &&& self.lsd_history@ == other.lsd_history@
        &&& self.hpf_history@ == other.hpf_history@
        &&& self.center_state == other.center_state
        &&& self.deemphasis_state == other.deemphasis_state
        &&& self.vox_envelope_state == other.vox_envelope_state
        &&& self.measurement_state == other.measurement_state
        &&& self.ctcss_state@ == other.ctcss_state@
        &&& self.baseband@ == other.baseband@
        &&& self.carrier_gate@ == other.carrier_gate@
        &&& self.emission_offsets@ == other.emission_offsets@
        &&& self.lsd@ == other.lsd@
        &&& self.centered@ == other.centered@
        &&& self.limited@ == other.limited@
        &&& self.vox_envelope@ == other.vox_envelope@
        &&& self.hpf@ == other.hpf@
        &&& self.voice@ == other.voice@
        &&& self.center_trace@ == other.center_trace@
        &&& self.blanking_remaining_ms == other.blanking_remaining_ms
        &&& self.blanking_remainder == other.blanking_remainder
        &&& self.vox_hang_frames == other.vox_hang_frames
        &&& self.vox_hold_remaining_frames == other.vox_hold_remaining_frames
        &&& self.voice_processing_active == other.voice_processing_active
        &&& self.center_trace_phase == other.center_trace_phase
        &&& self.last_baseband_count == other.last_baseband_count
        &&& self.last_native_count == other.last_native_count
        &&& self.last_result == other.last_result
    }

    /// The delay run of the span's samples `[start, end)`.
    fn process_delay_segment(&mut self, start: usize, end: usize)
        requires
            old(self).wf(),
            old(self).delay_config is Some,
            start <= end <= old(self).baseband_capacity,
        ensures
            final(self).wf(),
            final(self).spec_same_but_delay(old(self)),
            final(self).delay_outzero == old(self).delay_outzero,
            final(self).delay_gate_native_remainder == old(self).delay_gate_native_remainder,
            ({
                let next = spec_delay_segment(
                    DelayRun { start: start as int, ..old(self).spec_delay_run() },
                    old(self).spec_delay_input(),
                    end as int,
                    old(self).delay_config.unwrap().lead,
                );
                &&& final(self).delay_storage@ == next.storage
                &&& final(self).delay_state == next.state
                &&& final(self).delayed@ == next.delayed
            }),
    {
        if end == start {
            return;
        }
        let delay = match self.delay_config {
            Some(delay) => delay,
            None => {
                return;
            },
        };
        let segment = if self.deemphasis_config.is_some() {
            copy_range(&self.voice, start, end)
        } else {
            copy_range(&self.hpf, start, end)
        };
        let mut output = copy_range(&self.delayed, start, end);
        let processed = delay_line::process(
            &segment,
            &mut output,
            &mut self.delay_storage,
            delay.lead,
            &mut self.delay_state,
            true,
            self.delay_outzero,
            0i16,
        );
        assert(processed is Ok);
        proof {
            let count = (end - start) as int;
            if !self.delay_outzero {
                assert(output@ =~= Seq::new(count as nat, |k: int| delay_line::spec_delayed(
                    old(self).delay_storage@, segment@, old(self).delay_state.input_index as int, delay.lead as int, k)));
            }
        }
        overwrite_range(&mut self.delayed, start, &output);
        proof {
            let count = (end - start) as int;
            if !self.delay_outzero {
                assert(self.delay_storage@.len() == old(self).delay_storage@.len()) by {
                    lemma_storage_len(old(self).delay_storage@, segment@, old(self).delay_state.input_index as int, count);
                }
            }
        }
    }
}

/// Writing a span keeps the storage length.
proof fn lemma_storage_len(storage: Seq<i16>, input: Seq<i16>, input_index: int, count: int)
    requires
        storage.len() > 0,
        input_index >= 0,
    ensures
        delay_line::spec_storage_after(storage, input, input_index, count).len() == storage.len(),
    decreases count,
{
    if count > 0 {
        lemma_storage_len(storage, input, input_index, count - 1);
    }
}


/// Every gate boundary of a span is one of its native frames.
proof fn lemma_gate_boundary_range(remainder: int, native_frame_count: int, k: int)
    requires
        0 <= remainder < 960,
        0 <= native_frame_count <= u32::MAX,
        0 <= k < spec_gate_boundaries(remainder, native_frame_count).len(),
    ensures
        1 <= spec_gate_boundaries(remainder, native_frame_count)[k] <= native_frame_count,
        k > 0 ==> spec_gate_boundaries(remainder, native_frame_count)[k - 1]
            <= spec_gate_boundaries(remainder, native_frame_count)[k],
{
    let first = 960 - remainder;
    let count = (native_frame_count - first) / 960 + 1;
    assert(native_frame_count >= first);
    assert(first + k * 960 <= native_frame_count) by (nonlinear_arith)
        requires
            0 <= k < count,
            count == (native_frame_count - first) / 960 + 1,
            native_frame_count >= first;
    assert(first + k * 960 >= 1) by (nonlinear_arith)
        requires k >= 0, first >= 1;
    if k > 0 {
        assert(first + (k - 1) * 960 <= first + k * 960) by (nonlinear_arith)
            requires k >= 1;
        assert(first + (k - 1) * 960 >= 1) by (nonlinear_arith)
            requires k >= 1, first >= 1;
    }
}

/// The delay run at the end of a span: one segment under a VOX detector,
/// else segments split at the fixed gate boundaries that fall in the span.
pub open spec fn spec_delay_span(
    run: DelayRun,
    input: Seq<i16>,
    lead: u32,
    vox: bool,
    gate_remainder: u32,
    offsets: Seq<u32>,
    gates: Seq<u8>,
    native_frame_count: u32,
    count: int,
) -> DelayRun {
    if vox {
        spec_delay_segment(run, input, count, lead)
    } else {
        let boundaries = spec_gate_boundaries(gate_remainder as int, native_frame_count as int);
        spec_delay_segment(
            spec_delay_gated(run, input, lead, boundaries, offsets, gates, boundaries.len() as int),
            input,
            count,
            lead,
        )
    }
}

/// The delay part of a receive path.
pub struct DelayStage {
    /// Delay configuration.
    pub config: Option<DelayConfig>,
    /// Whether a VOX detector provides the carrier.
    pub vox: bool,
    /// Native frames elapsed in the current gate interval.
    pub gate_remainder: u32,
    /// Storage, cursor, delayed output and muting.
    pub run: DelayRun,
}

/// The delay line after a span, or untouched without one.
pub open spec fn spec_delay_step(
    before: DelayStage,
    after: DelayStage,
    input: Seq<i16>,
    offsets: Seq<u32>,
    gates: Seq<u8>,
    native_frame_count: u32,
    count: int,
) -> bool {
    &&& after.config == before.config
    &&& after.vox == before.vox
    &&& after.run.start == 0
    &&& match before.config {
        Some(delay) => {
            let run = spec_delay_span(
                before.run, input, delay.lead, before.vox, before.gate_remainder, offsets, gates, native_frame_count, count);
            &&& after.run == DelayRun { start: 0, ..run }
            &&& after.gate_remainder == if before.vox {
                before.gate_remainder
            } else {
                before.gate_remainder.wrapping_add(native_frame_count) % LEGACY_DELAY_GATE_FRAMES
            }
        },
        None => {
            &&& after.run == before.run
            &&& after.gate_remainder == before.gate_remainder
        },
    }
}

impl ReceivePath {
    /// Delay the voice over one span.  Without a VOX detector the carrier
    /// gate is sampled every 20 ms of native time, independently of how
    /// the stream is partitioned, and decides muting for what follows.
    fn process_delay(&mut self, native_frame_count: u32, count: usize)
        requires
            old(self).wf(),
            old(self).delay_config is Some,
            count <= old(self).baseband_capacity,
            old(self).emission_offsets@.len() == count,
            old(self).carrier_gate@.len() == native_frame_count,
            forall|i: int, j: int| 0 <= i <= j < count ==> old(self).emission_offsets@[i] <= old(self).emission_offsets@[j],
        ensures
            final(self).wf(),
            final(self).spec_same_but_delay(old(self)),
            ({
                let run = spec_delay_span(
                    old(self).spec_delay_run(),
                    old(self).spec_delay_input(),
                    old(self).delay_config.unwrap().lead,
                    old(self).vox_config is Some,
                    old(self).delay_gate_native_remainder,
                    old(self).emission_offsets@,
                    old(self).carrier_gate@,
                    native_frame_count,
                    count as int,
                );
                &&& final(self).delay_storage@ == run.storage
                &&& final(self).delay_state == run.state
                &&& final(self).delayed@ == run.delayed
                &&& final(self).delay_outzero == run.outzero
            }),
            final(self).delay_gate_native_remainder == if old(self).vox_config is Some {
                old(self).delay_gate_native_remainder
            } else {
                old(self).delay_gate_native_remainder.wrapping_add(native_frame_count) % LEGACY_DELAY_GATE_FRAMES
            },
    {
        if self.vox_config.is_some() {
            self.process_delay_segment(0, count);
            return;
        }
        let ghost lead = old(self).delay_config.unwrap().lead;
        let ghost input = old(self).spec_delay_input();
        let ghost offsets = old(self).emission_offsets@;
        let ghost gates = old(self).carrier_gate@;
        let boundaries = delay_gate_boundaries(self.delay_gate_native_remainder, native_frame_count);
        let ghost bounds = boundaries@;
        let mut sample_start: usize = 0;
        let mut index: usize = 0;
        while index < boundaries.len()
            invariant
                self.wf(),
                self.delay_config == old(self).delay_config,
                self.delay_config is Some,
                self.vox_config is None,
                count <= self.baseband_capacity,
                offsets.len() == count,
                forall|i: int, j: int| 0 <= i <= j < count ==> offsets[i] <= offsets[j],
                gates.len() == native_frame_count,
                self.emission_offsets@ == offsets,
                self.carrier_gate@ == gates,
                old(self).delay_gate_native_remainder < 960,
                bounds == spec_gate_boundaries(old(self).delay_gate_native_remainder as int, native_frame_count as int),
                boundaries@ == bounds,
                index <= bounds.len(),
                self.spec_same_but_delay(old(self)),
                self.delay_gate_native_remainder == old(self).delay_gate_native_remainder,
                self.spec_delay_input() == input,
                lead == self.delay_config.unwrap().lead,
                sample_start <= count,
                index > 0 ==> sample_start == spec_partition(offsets, bounds[index - 1]),
                index == 0 ==> sample_start == 0,
                ({
                    let run = spec_delay_gated(old(self).spec_delay_run(), input, lead, bounds, offsets, gates, index as int);
                    &&& self.delay_storage@ == run.storage
                    &&& self.delay_state == run.state
                    &&& self.delayed@ == run.delayed
                    &&& self.delay_outzero == run.outzero
                    &&& sample_start == run.start
                }),
            decreases bounds.len() - index,
        {
            let boundary = boundaries[index];
            proof {
                lemma_gate_boundary_range(old(self).delay_gate_native_remainder as int, native_frame_count as int, index as int);
                lemma_partition_from(offsets, boundary, boundary, 0);
                if index > 0 {
                    lemma_partition_from(offsets, bounds[index - 1], boundary, 0);
                }
            }
            let end = partition_point(&self.emission_offsets, boundary);
            self.process_delay_segment(sample_start, end);
            sample_start = end;
            self.delay_outzero = self.carrier_gate[boundary as usize - 1] == 0;
            index = index + 1;
        }
        self.process_delay_segment(sample_start, count);
        self.delay_gate_native_remainder = self.delay_gate_native_remainder.wrapping_add(native_frame_count)
            % LEGACY_DELAY_GATE_FRAMES;
    }
}


/// The emission offsets of a span are increasing native frames of the
/// span, no more than the baseband workspace holds.
pub proof fn lemma_emission_offsets_shape(decimator: int, native_frame_count: int, maximum: int)
    requires
        decimator <= 6,
        0 <= native_frame_count <= maximum <= u32::MAX,
    ensures
        spec_emission_offsets(decimator, native_frame_count, 6).len() <= (maximum + 2 * 6 - 2) / 6,
        forall|i: int, j: int| 0 <= i <= j < spec_emission_offsets(decimator, native_frame_count, 6).len()
            ==> spec_emission_offsets(decimator, native_frame_count, 6)[i]
                <= spec_emission_offsets(decimator, native_frame_count, 6)[j],
        forall|i: int| 0 <= i < spec_emission_offsets(decimator, native_frame_count, 6).len()
            ==> spec_emission_offsets(decimator, native_frame_count, 6)[i] <= native_frame_count,
{
    let first = spec_first_emission(decimator);
    let offsets = spec_emission_offsets(decimator, native_frame_count, 6);
    let count = offsets.len() as int;
    if native_frame_count >= first {
        assert(count == (native_frame_count - first) / 6 + 1);
        assert((native_frame_count - first) / 6 + 1 <= (maximum + 10) / 6) by (nonlinear_arith)
            requires 1 <= first, first <= native_frame_count <= maximum;
        assert forall|i: int, j: int| 0 <= i <= j < count implies offsets[i] <= offsets[j] by {
            assert(first + i * 6 <= first + j * 6) by (nonlinear_arith) requires i <= j;
            assert(first + j * 6 <= native_frame_count) by (nonlinear_arith)
                requires 0 <= j < count, count == (native_frame_count - first) / 6 + 1, native_frame_count >= first;
            assert(first + i * 6 >= 0) by (nonlinear_arith) requires i >= 0, first >= 1;
        }
        assert forall|i: int| 0 <= i < count implies offsets[i] <= native_frame_count by {
            assert(first + i * 6 <= native_frame_count) by (nonlinear_arith)
                requires 0 <= i < count, count == (native_frame_count - first) / 6 + 1, native_frame_count >= first;
            assert(first + i * 6 >= 0) by (nonlinear_arith) requires i >= 0, first >= 1;
        }
    } else {
        assert(count == 0);
        assert(0 <= (maximum + 10) / 6) by (nonlinear_arith) requires maximum >= 0;
    }
}

impl ReceivePath {
    /// Whether a frontend report fits this path: a span no longer than the
    /// maximum, one carrier gate per native frame, and one baseband code
    /// per frame at which the reported decimator phase emits.
    pub open spec fn spec_span_accepted(&self, frontend: FrontendSpan) -> bool {
        &&& frontend.native_frame_count <= self.maximum_native_frames
        &&& frontend.decimator_before <= self.decimate
        &&& frontend.carrier_gates@.len() == frontend.native_frame_count
        &&& frontend.baseband@.len() == spec_emission_offsets(
            frontend.decimator_before as int,
            frontend.native_frame_count as int,
            self.decimate as int,
        ).len()
    }

    /// Whether the CTCSS detector bank runs on a span of `count` samples:
    /// configured, and either the voice stages are awake or a tone is
    /// already decoded.
    pub open spec fn spec_ctcss_runs(&self, count: int) -> bool {
        &&& count != 0
        &&& self.ctcss_state@.tone_mask != 0
        &&& (self.voice_processing_active || self.ctcss_state@.decoded != -1)
    }

    /// The fixed configuration, coefficient tables and timers that the
    /// per-span stages leave alone.
    pub open spec fn spec_same_setup(&self, other: &Self) -> bool {
        &&& self.maximum_native_frames == other.maximum_native_frames
        &&& self.baseband_capacity == other.baseband_capacity
        &&& self.decimate == other.decimate
        &&& self.lsd_controls == other.lsd_controls
        &&& self.hpf_controls == other.hpf_controls
        &&& self.center_config == other.center_config
        &&& self.deemphasis_config == other.deemphasis_config
        &&& self.delay_config == other.delay_config
        &&& self.vox_config == other.vox_config
        &&& self.measurement_config == other.measurement_config
        &&& self.lsd_coefficients@ == other.lsd_coefficients@
        &&& self.hpf_coefficients@ == other.hpf_coefficients@
        &&& self.blanking_remaining_ms == other.blanking_remaining_ms
        &&& self.blanking_remainder == other.blanking_remainder
        &&& self.vox_hang_frames == other.vox_hang_frames
        &&& self.voice_processing_active == other.voice_processing_active
    }

    /// The delay part of this path.
    pub open spec fn delay_view(&self) -> DelayStage {
        DelayStage {
            config: self.delay_config,
            vox: self.vox_config is Some,
            gate_remainder: self.delay_gate_native_remainder,
            run: self.spec_delay_run(),
        }
    }

    /// The delay line after a span, or untouched without one.
    pub open spec fn spec_delay_stage(&self, next: &Self, input: Seq<i16>, offsets: Seq<u32>, gates: Seq<u8>, native_frame_count: u32, count: int) -> bool {
        spec_delay_step(self.delay_view(), next.delay_view(), input, offsets, gates, native_frame_count, count)
    }

    /// The audio stages of one span: baseband filters, then the delay.
    fn advance_audio_stages(&mut self, baseband: &[i16], native_frame_count: u32)
        requires
            old(self).wf(),
            baseband.len() <= old(self).baseband_capacity,
            old(self).emission_offsets@.len() == baseband.len(),
            old(self).carrier_gate@.len() == native_frame_count,
            forall|i: int, j: int| 0 <= i <= j < baseband.len()
                ==> old(self).emission_offsets@[i] <= old(self).emission_offsets@[j],
        ensures
            final(self).wf(),
            final(self).spec_same_setup(old(self)),
            old(self).spec_ctcss_stage(final(self), baseband@),
            old(self).spec_voice_stage(final(self), baseband@),
            old(self).spec_delay_stage(
                final(self),
                final(self).spec_delay_input(),
                old(self).emission_offsets@,
                old(self).carrier_gate@,
                native_frame_count,
                baseband.len() as int,
            ),
            final(self).vox_envelope_state == old(self).vox_envelope_state,
            final(self).measurement_state == old(self).measurement_state,
            final(self).vox_envelope@ == old(self).vox_envelope@,
            final(self).ctcss_state@ == old(self).ctcss_state@,
            final(self).baseband@ == old(self).baseband@,
            final(self).carrier_gate@ == old(self).carrier_gate@,
            final(self).emission_offsets@ == old(self).emission_offsets@,
            final(self).vox_hold_remaining_frames == old(self).vox_hold_remaining_frames,
            final(self).last_baseband_count == old(self).last_baseband_count,
            final(self).last_native_count == old(self).last_native_count,
            final(self).last_result == old(self).last_result,
    {
        self.process_baseband(baseband);
        if self.delay_config.is_some() {
            self.process_delay(native_frame_count, baseband.len());
        }
    }

    /// The VOX and tuning envelopes of one span; reports the VOX comparator.
    fn advance_envelopes(&mut self, baseband: &[i16]) -> (vox_detect: bool)
        requires
            old(self).wf(),
        ensures
            final(self).wf(),
            *final(self) == (ReceivePath {
                vox_envelope_state: final(self).vox_envelope_state,
                measurement_state: final(self).measurement_state,
                vox_envelope: final(self).vox_envelope,
                ..*old(self)
            }),
            match old(self).vox_config {
                Some(vox) => {
                    let decay = vox.envelope.decay_factor;
                    &&& baseband.len() != 0 ==> final(self).vox_envelope_state
                        == envelope_meter::spec_final_state(old(self).vox_envelope_state, baseband@, decay)
                    &&& baseband.len() != 0 ==> final(self).vox_envelope@ == Seq::new(baseband.len() as nat, |k: int|
                        envelope_meter::spec_state_after(old(self).vox_envelope_state, baseband@, decay, k + 1).peak)
                    &&& baseband.len() == 0 ==> final(self).vox_envelope_state == old(self).vox_envelope_state
                        && final(self).vox_envelope@.len() == 0
                    &&& vox_detect == (baseband.len() != 0 && final(self).vox_envelope_state.peak >= vox.envelope.threshold)
                },
                None => {
                    &&& final(self).vox_envelope_state == old(self).vox_envelope_state
                    &&& final(self).vox_envelope@ == old(self).vox_envelope@
                    &&& !vox_detect
                },
            },
            final(self).measurement_state == match old(self).measurement_config {
                Some(measurement) => if baseband.len() != 0 {
                    envelope_meter::spec_final_state(old(self).measurement_state, baseband@, measurement.decay_factor)
                } else {
                    old(self).measurement_state
                },
                None => old(self).measurement_state,
            },
    {
        let count = baseband.len();
        let mut vox_detect = false;
        match self.vox_config {
            Some(vox) => {
                if count != 0 {
                    let mut envelope = zeroed(count, 0i16);
                    vox_detect = envelope_meter::measure(
                        baseband,
                        &mut envelope,
                        true,
                        vox.envelope.decay_factor,
                        vox.envelope.threshold,
                        &mut self.vox_envelope_state,
                    );
                    self.vox_envelope = envelope;
                    assert(self.vox_envelope@ =~= Seq::new(count as nat, |k: int|
                        envelope_meter::spec_state_after(old(self).vox_envelope_state, baseband@,
                            vox.envelope.decay_factor, k + 1).peak));
                } else {
                    self.vox_envelope = Vec::new();
                }
            },
            None => {},
        }
        if count != 0 {
            match self.measurement_config {
                Some(measurement) => {
                    let mut unused: Vec<i16> = Vec::new();
                    let _ = envelope_meter::measure(
                        baseband,
                        &mut unused,
                        false,
                        measurement.decay_factor,
                        measurement.threshold,
                        &mut self.measurement_state,
                    );
                },
                None => {},
            }
        }
        vox_detect
    }

    /// What one span does to a path and what it returns; see
    /// [`ReceivePath::process_with_carrier`].
    pub open spec fn spec_span_processed(
        &self,
        next: &Self,
        frontend: FrontendSpan,
        external_carrier: Option<bool>,
        result: Result<ProcessResult, i32>,
    ) -> bool {
        &&& result is Ok <==> self.spec_span_accepted(frontend)
        &&& result matches Err(code) ==> code == RADIO_INVALID_ARGUMENT && *next == *self
        &&& result is Ok && frontend.native_frame_count == 0 ==> ({
            let r = ProcessResult {
                ctcss_decoded: self.ctcss_state@.decoded,
                ctcss_decoder_peak: self.center_state.peak,
                dcs_valid: frontend.dcs_valid,
                rssi_peak: frontend.rssi_peak,
                ..spec_empty_result()
            };
            &&& result == Ok::<ProcessResult, i32>(r)
            &&& *next == (ReceivePath {
                baseband: next.baseband,
                carrier_gate: next.carrier_gate,
                last_baseband_count: 0,
                last_native_count: 0,
                last_result: r,
                ..*self
            })
            &&& next.baseband@.len() == 0
            &&& next.carrier_gate@.len() == 0
        })
        &&& result is Ok && frontend.native_frame_count != 0 ==> ({
            let n = frontend.native_frame_count;
            let b = frontend.baseband@;
            let count = b.len() as int;
            let offsets = spec_emission_offsets(frontend.decimator_before as int, n as int, self.decimate as int);
            let carrier = match self.vox_config {
                Some(vox) => next.vox_hold_remaining_frames != 0,
                None => frontend.comparator_open,
            };
            let vox_detect = match self.vox_config {
                Some(vox) => count != 0 && next.vox_envelope_state.peak >= vox.envelope.threshold,
                None => false,
            };
            let decoded = if self.spec_ctcss_runs(count) {
                next.ctcss_state@.decoded
            } else {
                self.ctcss_state@.decoded
            };
            &&& result == Ok::<ProcessResult, i32>(ProcessResult {
                native_frame_count: n,
                baseband_frame_count: count as u32,
                blanked_native_frames: frontend.blanked_native_frames,
                carrier_detect: carrier,
                vox_detect,
                ctcss_decoded: decoded,
                dcs_valid: frontend.dcs_valid,
                ctcss_decoder_peak: next.center_state.peak,
                rssi_peak: frontend.rssi_peak,
                rssi_updated: frontend.rssi_updated,
            })
            &&& next.last_result == result->Ok_0
            &&& next.last_native_count == n
            &&& next.last_baseband_count == count
            &&& next.baseband@ == b
            &&& next.carrier_gate@ == frontend.carrier_gates@
            &&& next.emission_offsets@ == offsets
            &&& self.spec_ctcss_stage(next, b)
            &&& self.spec_voice_stage(next, b)
            &&& self.spec_delay_stage(next, next.spec_delay_input(), offsets, frontend.carrier_gates@, n, count)
            &&& match self.vox_config {
                Some(vox) => {
                    let decay = vox.envelope.decay_factor;
                    &&& count != 0 ==> next.vox_envelope_state
                        == envelope_meter::spec_final_state(self.vox_envelope_state, b, decay)
                    &&& count != 0 ==> next.vox_envelope@ == Seq::new(count as nat, |k: int|
                        envelope_meter::spec_state_after(self.vox_envelope_state, b, decay, k + 1).peak)
                    &&& count == 0 ==> next.vox_envelope_state == self.vox_envelope_state
                        && next.vox_envelope@.len() == 0
                    &&& next.vox_hold_remaining_frames == spec_vox_hold_at(
                        self.vox_hold_remaining_frames,
                        self.vox_hang_frames,
                        offsets,
                        next.vox_envelope@,
                        vox.envelope.threshold,
                        count,
                        n as int,
                    )
                },
                None => {
                    &&& next.vox_envelope_state == self.vox_envelope_state
                    &&& next.vox_envelope@ == self.vox_envelope@
                    &&& next.vox_hold_remaining_frames == self.vox_hold_remaining_frames
                },
            }
            &&& next.measurement_state == match self.measurement_config {
                Some(measurement) => if count != 0 {
                    envelope_meter::spec_final_state(self.measurement_state, b, measurement.decay_factor)
                } else {
                    self.measurement_state
                },
                None => self.measurement_state,
            }
            &&& self.spec_ctcss_runs(count) ==> next.ctcss_state@ == ctcss_receive::spec_process(
                self.ctcss_state@,
                next.limited@,
                match external_carrier { Some(c) => c, None => carrier },
            )
            &&& !self.spec_ctcss_runs(count) ==> next.ctcss_state@ == self.ctcss_state@
            &&& next.spec_same_setup(self)
        })
    }

    /// Run the detector stages after the native frontend over one span.
    ///
    /// `frontend` reports the span's decimated baseband codes, carrier
    /// gates and decimator phase; `external_carrier`, when given, qualifies
    /// CTCSS in place of the DSP carrier decision.  The CTCSS and voice
    /// stages, the carrier-gated delay, the VOX and tuning envelopes, the VOX
    /// hold and the CTCSS detector bank advance as the stage contracts state,
    /// and the span's result is recorded.  An empty span only republishes
    /// the detectors' current decisions.
    pub fn process_with_carrier(&mut self, frontend: &FrontendSpan, external_carrier: Option<bool>)
        -> (result: Result<ProcessResult, i32>)
        requires
            old(self).wf(),
            frontend.baseband.len() <= ctcss_receive::MAX_SPAN_SAMPLES,
        ensures
            final(self).wf(),
            old(self).spec_span_processed(final(self), *frontend, external_carrier, result),
    {
        let n = frontend.native_frame_count;
        if n > self.maximum_native_frames || frontend.decimator_before > self.decimate as i16
            || frontend.carrier_gates.len() != n as usize
        {
            return Err(RADIO_INVALID_ARGUMENT);
        }
        let offsets = record_emission_offsets(frontend.decimator_before, n, self.decimate);
        if offsets.len() != frontend.baseband.len() {
            return Err(RADIO_INVALID_ARGUMENT);
        }
        if n == 0 {
            let r = ProcessResult {
                native_frame_count: 0,
                baseband_frame_count: 0,
                blanked_native_frames: 0,
                carrier_detect: false,
                vox_detect: false,
                ctcss_decoded: self.ctcss_state.decoded(),
                dcs_valid: frontend.dcs_valid,
                ctcss_decoder_peak: self.center_state.peak,
                rssi_peak: frontend.rssi_peak,
                rssi_updated: false,
            };
            self.baseband = Vec::new();
            self.carrier_gate = Vec::new();
            self.last_baseband_count = 0;
            self.last_native_count = 0;
            self.last_result = r;
            return Ok(r);
        }
        proof {
            lemma_emission_offsets_shape(frontend.decimator_before as int, n as int, self.maximum_native_frames as int);
        }
        let count = frontend.baseband.len();
        self.baseband = copied(&frontend.baseband);
        self.carrier_gate = copied(&frontend.carrier_gates);
        self.emission_offsets = offsets;
        self.last_native_count = n as usize;
        self.last_baseband_count = count;
        self.advance_audio_stages(&frontend.baseband, n);
        let vox_detect = self.advance_envelopes(&frontend.baseband);
        let carrier_detect = match self.vox_config {
            Some(vox) => {
                let hold = advance_vox_hold(
                    self.vox_hold_remaining_frames,
                    self.vox_hang_frames,
                    &self.emission_offsets,
                    &self.vox_envelope,
                    vox.envelope.threshold,
                    n,
                );
                self.vox_hold_remaining_frames = hold;
                hold != 0
            },
            None => frontend.comparator_open,
        };
        let decoded_before = self.ctcss_state.decoded();
        let ctcss_decoded = if count != 0 && self.ctcss_state.enabled()
            && (self.voice_processing_active || decoded_before != -1)
        {
            let carrier = match external_carrier {
                Some(external) => external,
                None => carrier_detect,
            };
            self.ctcss_state.process(&self.limited, carrier)
        } else {
            decoded_before
        };
        let r = ProcessResult {
            native_frame_count: n,
            baseband_frame_count: count as u32,
            blanked_native_frames: frontend.blanked_native_frames,
            carrier_detect,
            vox_detect,
            ctcss_decoded,
            dcs_valid: frontend.dcs_valid,
            ctcss_decoder_peak: self.center_state.peak,
            rssi_peak: frontend.rssi_peak,
            rssi_updated: frontend.rssi_updated,
        };
        self.last_result = r;
        Ok(r)
    }

    /// Run the detector stages with the DSP carrier decision qualifying
    /// CTCSS.
    pub fn process(&mut self, frontend: &FrontendSpan) -> (result: Result<ProcessResult, i32>)
        requires
            old(self).wf(),
            frontend.baseband.len() <= ctcss_receive::MAX_SPAN_SAMPLES,
        ensures
            final(self).wf(),
            old(self).spec_span_processed(final(self), *frontend, None, result),
    {
        self.process_with_carrier(frontend, None)
    }
}


impl ReceivePath {
    /// The final receiver audio of the latest span: the delayed voice when
    /// a delay is configured, else the voice; nothing without voice stages.
    pub fn voice_output(&self) -> (voice: Vec<i16>)
        requires
            self.wf(),
        ensures
            voice@ == if self.hpf_controls is None {
                Seq::empty()
            } else if self.delay_config is Some {
                self.delayed@.subrange(0, self.last_baseband_count as int)
            } else {
                self.voice@.subrange(0, self.last_baseband_count as int)
            },
    {
        if self.hpf_controls.is_none() {
            Vec::new()
        } else if self.delay_config.is_some() {
            copy_range(&self.delayed, 0, self.last_baseband_count)
        } else {
            copy_range(&self.voice, 0, self.last_baseband_count)
        }
    }

    /// The decimated frontend output of the latest span.
    pub fn baseband_output(&self) -> (baseband: Vec<i16>)
        ensures
            baseband@ == self.baseband@,
    {
        copied(&self.baseband)
    }

    /// The per-native-frame DSP carrier gates of the latest span.
    pub fn carrier_gates(&self) -> (gates: Vec<u8>)
        ensures
            gates@ == self.carrier_gate@,
    {
        copied(&self.carrier_gate)
    }

    /// The center-slicer diagnostic trace of the latest span, when enabled.
    pub fn center_trace(&self) -> (trace: Option<Vec<i16>>)
        requires
            self.wf(),
        ensures
            match self.center_config {
                Some(center) => if center.trace {
                    trace matches Some(t) && t@ == self.center_trace@.subrange(0, self.last_baseband_count as int)
                } else {
                    trace is None
                },
                None => trace is None,
            },
    {
        match self.center_config {
            Some(center) => {
                if center.trace {
                    Some(copy_range(&self.center_trace, 0, self.last_baseband_count))
                } else {
                    None
                }
            },
            None => None,
        }
    }
}


/// The last qualifying sample among the first `count` depends only on them.
proof fn lemma_last_qualifying_prefix(a: Seq<i16>, b: Seq<i16>, threshold: i16, count: int)
    requires
        0 <= count <= a.len(),
        count <= b.len(),
        forall|i: int| 0 <= i < count ==> a[i] == b[i],
    ensures
        spec_last_qualifying(a, threshold, count) == spec_last_qualifying(b, threshold, count),
        -1 <= spec_last_qualifying(a, threshold, count) < count,
    decreases count,
{
    if count > 0 {
        lemma_last_qualifying_prefix(a, b, threshold, count - 1);
    }
}

/// The last qualifying sample of two joined spans: in the second when it
/// has one, else in the first.
proof fn lemma_last_qualifying_join(first: Seq<i16>, second: Seq<i16>, threshold: i16, k: int)
    requires
        0 <= k <= second.len(),
    ensures
        spec_last_qualifying(first + second, threshold, first.len() + k) == if spec_last_qualifying(second, threshold, k) >= 0 {
            first.len() + spec_last_qualifying(second, threshold, k)
        } else {
            spec_last_qualifying(first, threshold, first.len() as int)
        },
        -1 <= spec_last_qualifying(second, threshold, k) < k,
    decreases k,
{
    let joined = first + second;
    if k == 0 {
        lemma_last_qualifying_prefix(joined, first, threshold, first.len() as int);
    } else {
        lemma_last_qualifying_join(first, second, threshold, k - 1);
        assert(joined[first.len() + k - 1] == second[k - 1]);
    }
}

/// The VOX hold does not depend on how the native stream is partitioned:
/// advancing it over one span and then over the next gives the hold of
/// advancing it over both spans at once, the second span's emission offsets
/// counted from the start of the first.
pub proof fn lemma_vox_hold_partition(
    hold: u32,
    hang_frames: u32,
    threshold: i16,
    first_offsets: Seq<u32>,
    first_envelope: Seq<i16>,
    first_frames: u32,
    second_offsets: Seq<u32>,
    second_envelope: Seq<i16>,
    second_frames: u32,
)
    requires
        first_offsets.len() == first_envelope.len(),
        second_offsets.len() == second_envelope.len(),
        forall|i: int| 0 <= i < first_offsets.len() ==> first_offsets[i] <= first_frames,
        forall|i: int| 0 <= i < second_offsets.len() ==> second_offsets[i] <= second_frames,
        first_frames + second_frames <= u32::MAX,
    ensures
        ({
            let middle = spec_vox_hold_at(
                hold, hang_frames, first_offsets, first_envelope, threshold, first_offsets.len() as int, first_frames as int);
            let whole_offsets = first_offsets + second_offsets.map_values(|offset: u32| (offset + first_frames) as u32);
            &&& 0 <= middle <= u32::MAX
            &&& spec_vox_hold_at(
                middle as u32, hang_frames, second_offsets, second_envelope, threshold,
                second_offsets.len() as int, second_frames as int)
                == spec_vox_hold_at(
                hold, hang_frames, whole_offsets, first_envelope + second_envelope, threshold,
                whole_offsets.len() as int, first_frames + second_frames)
        }),
{
    let n1 = first_frames as int;
    let n2 = second_frames as int;
    let len1 = first_offsets.len() as int;
    let len2 = second_offsets.len() as int;
    let whole_offsets = first_offsets + second_offsets.map_values(|offset: u32| (offset + first_frames) as u32);
    let joined = first_envelope + second_envelope;
    lemma_last_qualifying_join(first_envelope, second_envelope, threshold, len2);
    lemma_last_qualifying_prefix(first_envelope, first_envelope, threshold, len1);
    let last_second = spec_last_qualifying(second_envelope, threshold, len2);
    let last_first = spec_last_qualifying(first_envelope, threshold, len1);
    if last_second >= 0 {
        assert(whole_offsets[len1 + last_second] == second_offsets[last_second] + first_frames);
    } else if last_first >= 0 {
        assert(whole_offsets[last_first] == first_offsets[last_first]);
    }
}


/// The number of gate boundaries in a span: the whole gate intervals that
/// the elapsed frames complete.
proof fn lemma_gate_count(remainder: int, native_frame_count: int)
    requires
        0 <= remainder < 960,
        0 <= native_frame_count,
    ensures
        spec_gate_boundaries(remainder, native_frame_count).len() == (remainder + native_frame_count) / 960,
{
    let x = remainder + native_frame_count;
    if native_frame_count >= 960 - remainder {
        assert((native_frame_count - (960 - remainder)) / 960 + 1 == x / 960) by {
            vstd::arithmetic::div_mod::lemma_fundamental_div_mod(x - 960, 960);
            vstd::arithmetic::div_mod::lemma_fundamental_div_mod_converse(
                x, 960, (x - 960) / 960 + 1, (x - 960) % 960);
            vstd::arithmetic::div_mod::lemma_mod_bound(x - 960, 960);
        }
    } else {
        assert(x / 960 == 0) by {
            vstd::arithmetic::div_mod::lemma_basic_div(x, 960);
        }
    }
}

/// The delay gate samples the carrier at the same native frames however the
/// stream is partitioned: the boundaries of two consecutive spans, the
/// second counted from the first span's start, are the boundaries of both
/// spans taken at once.
pub proof fn lemma_gate_boundaries_partition(remainder: u32, first: u32, second: u32)
    requires
        remainder < LEGACY_DELAY_GATE_FRAMES,
        first + second <= u32::MAX,
    ensures
        spec_gate_boundaries(remainder as int, first + second) == spec_gate_boundaries(remainder as int, first as int)
            + spec_gate_boundaries((remainder + first) % 960, second as int).map_values(|b: u32| (b + first) as u32),
{
    let r = remainder as int;
    let n1 = first as int;
    let n2 = second as int;
    let whole = spec_gate_boundaries(r, n1 + n2);
    let head = spec_gate_boundaries(r, n1);
    let r2 = (r + n1) % 960;
    let tail = spec_gate_boundaries(r2, n2);
    let shifted = tail.map_values(|b: u32| (b + first) as u32);
    vstd::arithmetic::div_mod::lemma_fundamental_div_mod(r + n1, 960);
    vstd::arithmetic::div_mod::lemma_mod_bound(r + n1, 960);
    lemma_gate_count(r, n1 + n2);
    lemma_gate_count(r, n1);
    lemma_gate_count(r2, n2);
    let c1 = (r + n1) / 960;
    assert((r + n1 + n2) / 960 == c1 + (r2 + n2) / 960) by {
        vstd::arithmetic::div_mod::lemma_fundamental_div_mod(r2 + n2, 960);
        vstd::arithmetic::div_mod::lemma_mod_bound(r2 + n2, 960);
        vstd::arithmetic::div_mod::lemma_fundamental_div_mod_converse(
            r + n1 + n2, 960, c1 + (r2 + n2) / 960, (r2 + n2) % 960);
    }
    assert forall|k: int| 0 <= k < whole.len() implies #[trigger] whole[k] == (head + shifted)[k] by {
        lemma_gate_boundary_range(r, n1 + n2, k);
        if k < c1 {
            lemma_gate_boundary_range(r, n1, k);
        } else {
            let j = k - c1;
            lemma_gate_boundary_range(r2, n2, j);
            assert(960 - r + k * 960 == n1 + 960 - r2 + j * 960) by (nonlinear_arith)
                requires j == k - c1, r + n1 == 960 * c1 + r2;
        }
    }
    assert(whole =~= head + shifted);
}


/// The voice stages do not depend on how the baseband stream is
/// partitioned: running them over two consecutive spans leaves the same
/// high-pass history and deemphasis accumulator as running them over both
/// at once, and the two spans' voice outputs join into the whole span's.
pub proof fn lemma_voice_stage_partition(
    before: VoiceStage,
    middle: VoiceStage,
    after: VoiceStage,
    first: Seq<i16>,
    second: Seq<i16>,
)
    requires
        before.hpf_controls is Some,
        before.active,
        spec_voice_step(before, middle, first),
        spec_voice_step(middle, after, second),
    ensures
        after.hpf_history == fir::spec_run_history(before.hpf_history, first + second, before.hpf_fir()),
        before.voice_output(first) + middle.voice_output(second) == before.voice_output(first + second),
        after.accumulator == match before.deemphasis_config {
            Some(d) => {
                let hpf = before.hpf_output(first + second);
                deemphasis_integrator::spec_accumulator_after(
                    before.accumulator, hpf, spec_deemphasis_controls(d), hpf.len() as int)
            },
            None => before.accumulator,
        },
{
    let controls = before.hpf_fir();
    fir::lemma_span_partition(before.hpf_history, first, second, before.hpf_coefficients, controls);
    let hpf_first = before.hpf_output(first);
    let hpf_second = middle.hpf_output(second);
    assert(middle.hpf_fir() == controls);
    assert(before.hpf_output(first + second) == hpf_first + hpf_second);
    lemma_fir_outputs_len(before.hpf_history, first, before.hpf_coefficients, controls);
    lemma_fir_outputs_len(middle.hpf_history, second, middle.hpf_coefficients, controls);
    match before.deemphasis_config {
        Some(d) => {
            let deemphasis = spec_deemphasis_controls(d);
            deemphasis_integrator::lemma_span_partition(before.accumulator, hpf_first, hpf_second, deemphasis);
        },
        None => {},
    }
}


/// The CTCSS low-pass and center slicer do not depend on how the baseband
/// stream is partitioned, whenever the slicer's extrema at the split fit the
/// signed-16 state that carries them: two consecutive spans leave the same
/// low-pass history and slicer state as both at once, and their low-pass,
/// centered and limited outputs join into the whole span's.
pub proof fn lemma_ctcss_stage_partition(
    before: CtcssStage,
    middle: CtcssStage,
    after: CtcssStage,
    first: Seq<i16>,
    second: Seq<i16>,
)
    requires
        before.tone_mask != 0,
        spec_ctcss_step(before, middle, first),
        spec_ctcss_step(middle, after, second),
        center_slicer::spec_fits_state(before.tracker(before.lsd_output(first), first.len() as int)),
    ensures
        ({
            let whole = first + second;
            let lsd = before.lsd_output(whole);
            let center = before.center_config.unwrap();
            &&& after.lsd_history == fir::spec_run_history(before.lsd_history, whole, before.lsd_fir())
            &&& middle.lsd + after.lsd == lsd
            &&& after.center_state == center_slicer::spec_end_state(before.center_state, before.tracker(lsd, whole.len() as int))
            &&& middle.centered + after.centered == Seq::new(whole.len(), |k: int| center_slicer::spec_centered_at(
                before.center_state, lsd, center.setpoint as i32, center.decay_factor, k) as i16)
            &&& middle.limited + after.limited == Seq::new(whole.len(), |k: int| center_slicer::spec_limit(
                center_slicer::spec_centered_at(before.center_state, lsd, center.setpoint as i32, center.decay_factor, k),
                center.limit) as i16)
        }),
{
    let whole = first + second;
    let controls = before.lsd_fir();
    let center = before.center_config.unwrap();
    let setpoint = center.setpoint as i32;
    let decay = center.decay_factor;
    fir::lemma_span_partition(before.lsd_history, first, second, before.lsd_coefficients, controls);
    let lsd_first = before.lsd_output(first);
    let lsd_second = middle.lsd_output(second);
    assert(middle.lsd_fir() == controls);
    assert(middle.lsd == lsd_first);
    assert(after.lsd == lsd_second);
    lemma_fir_outputs_len(before.lsd_history, first, before.lsd_coefficients, controls);
    lemma_fir_outputs_len(middle.lsd_history, second, middle.lsd_coefficients, controls);
    let lsd = lsd_first + lsd_second;
    assert(before.lsd_output(whole) == lsd);
    center_slicer::lemma_span_partition(before.center_state, lsd_first, lsd_second, setpoint, decay);
    let n1 = first.len() as int;
    assert(middle.centered + after.centered =~= Seq::new(whole.len(), |k: int| center_slicer::spec_centered_at(
        before.center_state, lsd, setpoint, decay, k) as i16)) by {
        assert forall|k: int| 0 <= k < whole.len() implies (middle.centered + after.centered)[k]
            == center_slicer::spec_centered_at(before.center_state, lsd, setpoint, decay, k) as i16 by {
            if k < n1 {
                assert(center_slicer::spec_centered_at(before.center_state, lsd_first, setpoint, decay, k)
                    == center_slicer::spec_centered_at(before.center_state, lsd, setpoint, decay, k));
            } else {
                assert(center_slicer::spec_centered_at(middle.center_state, lsd_second, setpoint, decay, k - n1)
                    == center_slicer::spec_centered_at(before.center_state, lsd, setpoint, decay, n1 + (k - n1)));
            }
        }
    }
    assert(middle.limited + after.limited =~= Seq::new(whole.len(), |k: int| center_slicer::spec_limit(
        center_slicer::spec_centered_at(before.center_state, lsd, setpoint, decay, k), center.limit) as i16)) by {
        assert forall|k: int| 0 <= k < whole.len() implies (middle.limited + after.limited)[k]
            == center_slicer::spec_limit(center_slicer::spec_centered_at(before.center_state, lsd, setpoint, decay, k),
                center.limit) as i16 by {
            if k < n1 {
                assert(center_slicer::spec_centered_at(before.center_state, lsd_first, setpoint, decay, k)
                    == center_slicer::spec_centered_at(before.center_state, lsd, setpoint, decay, k));
            } else {
                assert(center_slicer::spec_centered_at(middle.center_state, lsd_second, setpoint, decay, k - n1)
                    == center_slicer::spec_centered_at(before.center_state, lsd, setpoint, decay, n1 + (k - n1)));
            }
        }
    }
}

} // verus!
