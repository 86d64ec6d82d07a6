//! Legacy-compatible post-filter CTCSS receive qualification.
//!
//! Starting at the center-slicer output (signed-16 codes at 8 kHz), this
//! state machine runs one fixed-point correlator per table tone with its own
//! probe clock, qualification counter, relaxed talk-off rule, reverse-burst
//! reset, and release blanking.

use vstd::prelude::*;
use crate::fixed_point::{abs, trunc_div};

verus! {

/// Fixed decoder sample rate after the receive frontend.
pub const SAMPLE_RATE_HZ: u32 = 8_000;
/// Number of supported CTCSS detector bins.
pub const TONE_COUNT: usize = 38;
/// Mask of every supported table index.
pub const TONE_MASK: u64 = 0x3f_ffff_ffff;
/// Probe-clock scale: one input sample is this many clock units.
pub const SCOUNT_MUL: i32 = 100;
/// Q15 unity.
pub const Q15: i32 = 32_767;
/// Deployed qualification set point (0.041 of Q15).
pub const SET_POINT: i16 = 1_343;
/// Deployed release hysteresis (0.013 of Q15).
pub const HYSTERESIS: i16 = 425;
/// Deployed correlator bin factor (0.135 of Q15).
pub const BIN_FACTOR: i16 = 4_423;
/// Deployed qualification count.
pub const FUDGE_FACTOR: i16 = 8;
/// Decoder samples blanked after a release: 200 ms.
pub const RELEASE_BLANKING_SAMPLES: i32 = 1_600;

/// Largest bin factor whose peak update cannot overflow signed-32 arithmetic.
pub const MAX_BIN_FACTOR: i16 = 13_107;
/// Largest qualification count whose saturation bound fits signed-16.
pub const MAX_FUDGE_FACTOR: i16 = 1_023;
/// Largest span accepted by one [`ReceiveState::process`] call.
pub const MAX_SPAN_SAMPLES: usize = 21_474_836;

/// Table tone frequencies in tenths of hertz.
pub open spec fn spec_frequency_tenths_hz() -> Seq<u32> {
    seq![
        670, 719, 744, 770, 797, 825, 854, 885, 915, 948, 974, 1000, 1035, 1072, 1109, 1148, 1188,
        1230, 1273, 1318, 1365, 1413, 1462, 1514, 1567, 1622, 1679, 1738, 1799, 1862, 1928, 2035,
        2107, 2181, 2257, 2336, 2418, 2503,
    ]
}

/// Correlator probe-clock dividers, one per table tone.
pub open spec fn spec_counter_factors() -> Seq<i16> {
    seq![
        2985, 2782, 2688, 2597, 2509, 2424, 2342, 2260, 2186, 2110, 2053, 2000, 1932, 1866, 1803,
        1742, 1684, 1626, 1571, 1517, 1465, 1415, 1368, 1321, 1276, 1233, 1191, 1151, 1112, 1074,
        1037, 983, 949, 917, 886, 856, 827, 799,
    ]
}

/// The probe-clock divisor that makes a correlator probe four times per
/// cycle of a tone of `frequency_tenths_hz`: the nearest integer to
/// `SAMPLE_RATE_HZ * SCOUNT_MUL * 10 / 4` divided by the frequency.
pub open spec fn spec_clock_matches(factor: int, frequency_tenths_hz: int) -> bool {
    let target = (SAMPLE_RATE_HZ as int) * (SCOUNT_MUL as int) * 10;
    -4 * frequency_tenths_hz <= 8 * factor * frequency_tenths_hz - 2 * target <= 4 * frequency_tenths_hz
}

/// Every table tone's correlator is clocked for that tone: its divisor is
/// the nearest integer to the clock constant over the tone's frequency, so
/// a tone is probed four times per cycle by its own detector only.
pub proof fn lemma_counter_factors_match_tones()
    ensures
        forall|i: int| 0 <= i < TONE_COUNT ==> #[trigger] spec_clock_matches(
            spec_counter_factors()[i] as int, spec_frequency_tenths_hz()[i] as int),
        forall|i: int, j: int| 0 <= i < j < TONE_COUNT ==> spec_frequency_tenths_hz()[i] < spec_frequency_tenths_hz()[j]
            && spec_counter_factors()[i] > spec_counter_factors()[j],
{
    assert forall|i: int| 0 <= i < TONE_COUNT implies #[trigger] spec_clock_matches(
        spec_counter_factors()[i] as int, spec_frequency_tenths_hz()[i] as int) by {
        if i == 0 {
            assert(spec_counter_factors()[0] == 2985 && spec_frequency_tenths_hz()[0] == 670);
            assert(spec_clock_matches(2985, 670));
        } else if i == 1 {
            assert(spec_counter_factors()[1] == 2782 && spec_frequency_tenths_hz()[1] == 719);
            assert(spec_clock_matches(2782, 719));
        } else if i == 2 {
            assert(spec_counter_factors()[2] == 2688 && spec_frequency_tenths_hz()[2] == 744);
            assert(spec_clock_matches(2688, 744));
        } else if i == 3 {
            assert(spec_counter_factors()[3] == 2597 && spec_frequency_tenths_hz()[3] == 770);
            assert(spec_clock_matches(2597, 770));
        } else if i == 4 {
            assert(spec_counter_factors()[4] == 2509 && spec_frequency_tenths_hz()[4] == 797);
            assert(spec_clock_matches(2509, 797));
        } else if i == 5 {
            assert(spec_counter_factors()[5] == 2424 && spec_frequency_tenths_hz()[5] == 825);
            assert(spec_clock_matches(2424, 825));
        } else if i == 6 {
            assert(spec_counter_factors()[6] == 2342 && spec_frequency_tenths_hz()[6] == 854);
            assert(spec_clock_matches(2342, 854));
        } else if i == 7 {
            assert(spec_counter_factors()[7] == 2260 && spec_frequency_tenths_hz()[7] == 885);
            assert(spec_clock_matches(2260, 885));
        } else if i == 8 {
            assert(spec_counter_factors()[8] == 2186 && spec_frequency_tenths_hz()[8] == 915);
            assert(spec_clock_matches(2186, 915));
        } else if i == 9 {
            assert(spec_counter_factors()[9] == 2110 && spec_frequency_tenths_hz()[9] == 948);
            assert(spec_clock_matches(2110, 948));
        } else if i == 10 {
            assert(spec_counter_factors()[10] == 2053 && spec_frequency_tenths_hz()[10] == 974);
            assert(spec_clock_matches(2053, 974));
        } else if i == 11 {
            assert(spec_counter_factors()[11] == 2000 && spec_frequency_tenths_hz()[11] == 1000);
            assert(spec_clock_matches(2000, 1000));
        } else if i == 12 {
            assert(spec_counter_factors()[12] == 1932 && spec_frequency_tenths_hz()[12] == 1035);
            assert(spec_clock_matches(1932, 1035));
        } else if i == 13 {
            assert(spec_counter_factors()[13] == 1866 && spec_frequency_tenths_hz()[13] == 1072);
            assert(spec_clock_matches(1866, 1072));
        } else if i == 14 {
            assert(spec_counter_factors()[14] == 1803 && spec_frequency_tenths_hz()[14] == 1109);
            assert(spec_clock_matches(1803, 1109));
        } else if i == 15 {
            assert(spec_counter_factors()[15] == 1742 && spec_frequency_tenths_hz()[15] == 1148);
            assert(spec_clock_matches(1742, 1148));
        } else if i == 16 {
            assert(spec_counter_factors()[16] == 1684 && spec_frequency_tenths_hz()[16] == 1188);
            assert(spec_clock_matches(1684, 1188));
        } else if i == 17 {
            assert(spec_counter_factors()[17] == 1626 && spec_frequency_tenths_hz()[17] == 1230);
            assert(spec_clock_matches(1626, 1230));
        } else if i == 18 {
            assert(spec_counter_factors()[18] == 1571 && spec_frequency_tenths_hz()[18] == 1273);
            assert(spec_clock_matches(1571, 1273));
        } else if i == 19 {
            assert(spec_counter_factors()[19] == 1517 && spec_frequency_tenths_hz()[19] == 1318);
            assert(spec_clock_matches(1517, 1318));
        } else if i == 20 {
            assert(spec_counter_factors()[20] == 1465 && spec_frequency_tenths_hz()[20] == 1365);
            assert(spec_clock_matches(1465, 1365));
        } else if i == 21 {
            assert(spec_counter_factors()[21] == 1415 && spec_frequency_tenths_hz()[21] == 1413);
            assert(spec_clock_matches(1415, 1413));
        } else if i == 22 {
            assert(spec_counter_factors()[22] == 1368 && spec_frequency_tenths_hz()[22] == 1462);
            assert(spec_clock_matches(1368, 1462));
        } else if i == 23 {
            assert(spec_counter_factors()[23] == 1321 && spec_frequency_tenths_hz()[23] == 1514);
            assert(spec_clock_matches(1321, 1514));
        } else if i == 24 {
            assert(spec_counter_factors()[24] == 1276 && spec_frequency_tenths_hz()[24] == 1567);
            assert(spec_clock_matches(1276, 1567));
        } else if i == 25 {
            assert(spec_counter_factors()[25] == 1233 && spec_frequency_tenths_hz()[25] == 1622);
            assert(spec_clock_matches(1233, 1622));
        } else if i == 26 {
            assert(spec_counter_factors()[26] == 1191 && spec_frequency_tenths_hz()[26] == 1679);
            assert(spec_clock_matches(1191, 1679));
        } else if i == 27 {
            assert(spec_counter_factors()[27] == 1151 && spec_frequency_tenths_hz()[27] == 1738);
            assert(spec_clock_matches(1151, 1738));
        } else if i == 28 {
            assert(spec_counter_factors()[28] == 1112 && spec_frequency_tenths_hz()[28] == 1799);
            assert(spec_clock_matches(1112, 1799));
        } else if i == 29 {
            assert(spec_counter_factors()[29] == 1074 && spec_frequency_tenths_hz()[29] == 1862);
            assert(spec_clock_matches(1074, 1862));
        } else if i == 30 {
            assert(spec_counter_factors()[30] == 1037 && spec_frequency_tenths_hz()[30] == 1928);
            assert(spec_clock_matches(1037, 1928));
        } else if i == 31 {
            assert(spec_counter_factors()[31] == 983 && spec_frequency_tenths_hz()[31] == 2035);
            assert(spec_clock_matches(983, 2035));
        } else if i == 32 {
            assert(spec_counter_factors()[32] == 949 && spec_frequency_tenths_hz()[32] == 2107);
            assert(spec_clock_matches(949, 2107));
        } else if i == 33 {
            assert(spec_counter_factors()[33] == 917 && spec_frequency_tenths_hz()[33] == 2181);
            assert(spec_clock_matches(917, 2181));
        } else if i == 34 {
            assert(spec_counter_factors()[34] == 886 && spec_frequency_tenths_hz()[34] == 2257);
            assert(spec_clock_matches(886, 2257));
        } else if i == 35 {
            assert(spec_counter_factors()[35] == 856 && spec_frequency_tenths_hz()[35] == 2336);
            assert(spec_clock_matches(856, 2336));
        } else if i == 36 {
            assert(spec_counter_factors()[36] == 827 && spec_frequency_tenths_hz()[36] == 2418);
            assert(spec_clock_matches(827, 2418));
        } else if i == 37 {
            assert(spec_counter_factors()[37] == 799 && spec_frequency_tenths_hz()[37] == 2503);
            assert(spec_clock_matches(799, 2503));
        }
    }
    assert forall|i: int, j: int| 0 <= i < j < TONE_COUNT implies spec_frequency_tenths_hz()[i]
        < spec_frequency_tenths_hz()[j] && spec_counter_factors()[i] > spec_counter_factors()[j] by {
        assert forall|k: int| 0 <= k < TONE_COUNT - 1 implies #[trigger] spec_adjacent_ordered(k) by {
            if k == 0 {} else if k == 1 {} else if k == 2 {} else if k == 3 {} else if k == 4 {} else if k == 5 {} else if k == 6 {} else if k == 7 {} else if k == 8 {} else if k == 9 {} else if k == 10 {} else if k == 11 {} else if k == 12 {} else if k == 13 {} else if k == 14 {} else if k == 15 {} else if k == 16 {} else if k == 17 {} else if k == 18 {} else if k == 19 {} else if k == 20 {} else if k == 21 {} else if k == 22 {} else if k == 23 {} else if k == 24 {} else if k == 25 {} else if k == 26 {} else if k == 27 {} else if k == 28 {} else if k == 29 {} else if k == 30 {} else if k == 31 {} else if k == 32 {} else if k == 33 {} else if k == 34 {} else if k == 35 {} else if k == 36 {}
        }
        lemma_tables_ordered(i, j);
    }
}

/// Table tones `k` and `k + 1` rise in frequency and fall in divisor.
pub open spec fn spec_adjacent_ordered(k: int) -> bool {
    &&& spec_frequency_tenths_hz()[k] < spec_frequency_tenths_hz()[k + 1]
    &&& spec_counter_factors()[k] > spec_counter_factors()[k + 1]
}

/// Adjacent-order facts extend to every pair.
proof fn lemma_tables_ordered(i: int, j: int)
    requires
        0 <= i < j < TONE_COUNT,
        forall|k: int| 0 <= k < TONE_COUNT - 1 ==> #[trigger] spec_adjacent_ordered(k),
    ensures
        spec_frequency_tenths_hz()[i] < spec_frequency_tenths_hz()[j],
        spec_counter_factors()[i] > spec_counter_factors()[j],
    decreases j - i,
{
    if j > i + 1 {
        lemma_tables_ordered(i, j - 1);
        assert(spec_adjacent_ordered(j - 1));
    } else {
        assert(spec_adjacent_ordered(i));
    }
}

/// Return the frequency of one table tone in tenths of hertz.
pub fn frequency_tenths_hz(index: usize) -> (frequency: u32)
    requires
        index < TONE_COUNT,
    ensures
        frequency == spec_frequency_tenths_hz()[index as int],
{
    let table: [u32; TONE_COUNT] = [
        670, 719, 744, 770, 797, 825, 854, 885, 915, 948, 974, 1000, 1035, 1072, 1109, 1148, 1188,
        1230, 1273, 1318, 1365, 1413, 1462, 1514, 1567, 1622, 1679, 1738, 1799, 1862, 1928, 2035,
        2107, 2181, 2257, 2336, 2418, 2503,
    ];
    assert(table@ =~= spec_frequency_tenths_hz());
    table[index]
}

/// Return the correlator probe-clock divider of one table tone.
pub fn counter_factor(index: usize) -> (factor: i16)
    requires
        index < TONE_COUNT,
    ensures
        factor == spec_counter_factors()[index as int],
        spec_clock_matches(factor as int, spec_frequency_tenths_hz()[index as int] as int),
{
    proof {
        lemma_counter_factors_match_tones();
    }
    let table: [i16; TONE_COUNT] = [
        2985, 2782, 2688, 2597, 2509, 2424, 2342, 2260, 2186, 2110, 2053, 2000, 1932, 1866, 1803,
        1742, 1684, 1626, 1571, 1517, 1465, 1415, 1368, 1321, 1276, 1233, 1191, 1151, 1112, 1074,
        1037, 983, 949, 917, 886, 856, 827, 799,
    ];
    assert(table@ =~= spec_counter_factors());
    table[index]
}

/// Mutable correlator state for one table tone.
#[derive(Clone, Copy, Debug, PartialEq, Eq)]
pub struct Detector {
    /// Probe clock in units of [`SCOUNT_MUL`] per input sample.
    pub counter: i16,
    /// Clock units added per probe.
    pub counter_factor: i16,
    /// Q15 correlator integration factor.
    pub bin_factor: i16,
    /// Qualification count.
    pub fudge_factor: i16,
    /// Smoothed correlator peak.
    pub peak: i16,
    /// Next correlator phase to update.
    pub z_index: usize,
    /// Correlator phase accumulator 0.
    pub z0: i16,
    /// Correlator phase accumulator 1.
    pub z1: i16,
    /// Correlator phase accumulator 2.
    pub z2: i16,
    /// Correlator phase accumulator 3.
    pub z3: i16,
    /// Reverse-burst rise indicator.
    pub dvu: i16,
    /// Reverse-burst fall indicator.
    pub dvd: i16,
    /// Previous peak for the burst differentiator.
    pub zd: i16,
    /// Qualification threshold.
    pub set_point: i16,
    /// Release hysteresis threshold.
    pub hysteresis: i16,
    /// Qualification counter.
    pub decode: i16,
}

/// A detector whose arithmetic cannot overflow and whose clock never runs backwards.
pub open spec fn spec_detector_wf(d: Detector) -> bool {
    &&& d.counter >= 0
    &&& d.counter_factor >= SCOUNT_MUL
    &&& 0 <= d.bin_factor <= MAX_BIN_FACTOR
    &&& -MAX_FUDGE_FACTOR <= d.fudge_factor <= MAX_FUDGE_FACTOR
    &&& d.z_index < 4
}

/// The deployed detector for one clock divider.
pub open spec fn spec_configured(counter_factor: i16) -> Detector {
    Detector {
        counter: 0,
        counter_factor,
        bin_factor: BIN_FACTOR,
        fudge_factor: FUDGE_FACTOR,
        peak: 0,
        z_index: 0,
        z0: 0,
        z1: 0,
        z2: 0,
        z3: 0,
        dvu: 0,
        dvd: 0,
        zd: 0,
        set_point: SET_POINT,
        hysteresis: HYSTERESIS,
        decode: 0,
    }
}

impl Default for Detector {
    fn default() -> (detector: Self)
        ensures
            detector == (Detector {
                counter: 0, counter_factor: 0, bin_factor: 0, fudge_factor: 0, peak: 0, z_index: 0,
                z0: 0, z1: 0, z2: 0, z3: 0, dvu: 0, dvd: 0, zd: 0, set_point: 0, hysteresis: 0, decode: 0,
            }),
    {
        Detector {
            counter: 0, counter_factor: 0, bin_factor: 0, fudge_factor: 0, peak: 0, z_index: 0,
            z0: 0, z1: 0, z2: 0, z3: 0, dvu: 0, dvd: 0, zd: 0, set_point: 0, hysteresis: 0, decode: 0,
        }
    }
}

impl Detector {
    /// Construct one detector with the deployed constants.
    pub fn configured(counter_factor: i16) -> (detector: Self)
        ensures
            detector == spec_configured(counter_factor),
    {
        Detector {
            counter: 0,
            counter_factor,
            bin_factor: BIN_FACTOR,
            fudge_factor: FUDGE_FACTOR,
            peak: 0,
            z_index: 0,
            z0: 0,
            z1: 0,
            z2: 0,
            z3: 0,
            dvu: 0,
            dvd: 0,
            zd: 0,
            set_point: SET_POINT,
            hysteresis: HYSTERESIS,
            decode: 0,
        }
    }

    /// Clear only the state cleared by the loss path.
    pub fn clear_after_loss(&mut self)
        ensures
            *final(self) == (Detector { decode: 0, z0: 0, z1: 0, z2: 0, z3: 0, ..*old(self) }),
    {
        self.decode = 0;
        self.z0 = 0;
        self.z1 = 0;
        self.z2 = 0;
        self.z3 = 0;
    }
}

/// Correlator phase `index`.
pub open spec fn spec_z(d: Detector, index: usize) -> i16 {
    if index == 0 { d.z0 } else if index == 1 { d.z1 } else if index == 2 { d.z2 } else { d.z3 }
}

/// `d` with correlator phase `index` replaced.
pub open spec fn spec_with_z(d: Detector, index: usize, value: i16) -> Detector {
    if index == 0 {
        Detector { z0: value, ..d }
    } else if index == 1 {
        Detector { z1: value, ..d }
    } else if index == 2 {
        Detector { z2: value, ..d }
    } else {
        Detector { z3: value, ..d }
    }
}

/// Integrate the input into the current correlator phase.
pub open spec fn spec_integrate(d: Detector, accum: i16) -> Detector {
    let old_z = spec_z(d, d.z_index);
    let updated = old_z + trunc_div((accum - old_z) * d.bin_factor, Q15 as int);
    spec_with_z(d, d.z_index, updated as i16)
}

/// Quadrature correlator magnitude.
pub open spec fn spec_magnitude(d: Detector) -> int {
    abs(d.z0 - d.z2) + abs(d.z1 - d.z3)
}

/// Smooth the peak upward, or drop it to the current magnitude.
pub open spec fn spec_track_peak(d: Detector) -> Detector {
    let magnitude = spec_magnitude(d);
    if d.peak < magnitude {
        Detector { peak: (d.peak + trunc_div((magnitude - d.peak) * d.bin_factor, Q15 as int)) as i16, ..d }
    } else {
        Detector { peak: magnitude as i16, ..d }
    }
}

/// Differentiated peak used by the reverse-burst recognizer.
pub open spec fn spec_diff_peak(d: Detector) -> i16 {
    trunc_div(d.zd * -13_723 + d.peak * 13_723, 1_024) as i16
}

/// Reverse-burst envelope tracking.
pub open spec fn spec_track_burst(d: Detector) -> Detector {
    let diff = spec_diff_peak(d);
    let dvd = if diff < -983 {
        d.dvd.wrapping_sub(4)
    } else if d.dvd < 0 {
        d.dvd.wrapping_add(1)
    } else {
        d.dvd
    };
    let dvu = if dvd < -12 && diff > -656 {
        d.dvu.wrapping_add(2)
    } else if d.dvu != 0 {
        d.dvu.wrapping_sub(1)
    } else {
        d.dvu
    };
    Detector { zd: d.peak, dvd, dvu, ..d }
}

/// Qualification threshold, lowered for the currently selected tone.
pub open spec fn spec_threshold(d: Detector, selected: bool, relax: bool) -> i16 {
    if selected {
        if relax {
            trunc_div(d.set_point * 55, 100) as i16
        } else {
            trunc_div(d.set_point * 80, 100) as i16
        }
    } else {
        d.set_point
    }
}

/// Advance the qualification counter against the threshold.
pub open spec fn spec_count(d: Detector, selected: bool, relax: bool) -> Detector {
    let decode = if d.peak > spec_threshold(d, selected, relax) {
        if d.decode < d.fudge_factor * 32 { d.decode.wrapping_add(1) } else { d.decode }
    } else if selected {
        if d.peak > d.hysteresis || relax { d.decode.wrapping_sub(1) } else { d.decode.wrapping_sub(4) }
    } else {
        0
    };
    Detector { decode, ..d }
}

/// Reverse-burst reset, carrier gate, and bookkeeping after the count.
pub open spec fn spec_settle(d: Detector, selected: bool, relax: bool, carrier_detect: bool) -> Detector {
    let reset = if selected && !relax && d.dvu > 24 {
        Detector { decode: 0, z0: 0, z1: 0, z2: 0, z3: 0, dvu: 0, ..d }
    } else {
        d
    };
    let gated = if reset.decode < 0 || !carrier_detect { Detector { decode: 0, ..reset } } else { reset };
    let quiet = if gated.decode >= gated.fudge_factor && !selected {
        Detector { zd: 0, dvu: 0, dvd: 0, ..gated }
    } else {
        gated
    };
    Detector { z_index: ((quiet.z_index + 1) % 4) as usize, ..quiet }
}

/// One correlator sample: the detector afterwards.
pub open spec fn spec_step(d: Detector, accum: i16, selected: bool, relax: bool, carrier_detect: bool) -> Detector {
    spec_settle(
        spec_count(spec_track_burst(spec_track_peak(spec_integrate(d, accum))), selected, relax),
        selected,
        relax,
        carrier_detect,
    )
}

/// Whether a detector after a step is qualified.
pub open spec fn spec_qualified(d: Detector) -> bool {
    d.decode >= d.fudge_factor
}

/// Integrate the input into the current correlator phase.
fn integrate(detector: &mut Detector, accum: i16)
    requires
        spec_detector_wf(*old(detector)),
    ensures
        *final(detector) == spec_integrate(*old(detector), accum),
{
    let bin_factor = detector.bin_factor as i32;
    let z_index = detector.z_index;
    let old_z: i16 = if z_index == 0 {
        detector.z0
    } else if z_index == 1 {
        detector.z1
    } else if z_index == 2 {
        detector.z2
    } else {
        detector.z3
    };
    let delta: i32 = accum as i32 - old_z as i32;
    assert(delta * bin_factor <= 65535 * 13107) by (nonlinear_arith)
        requires -65535 <= delta <= 65535, 0 <= bin_factor <= 13107;
    assert(delta * bin_factor >= -65535 * 13107) by (nonlinear_arith)
        requires -65535 <= delta <= 65535, 0 <= bin_factor <= 13107;
    let updated_z: i32 = old_z as i32 + (delta * bin_factor) / Q15;
    if z_index == 0 {
        detector.z0 = updated_z as i16;
    } else if z_index == 1 {
        detector.z1 = updated_z as i16;
    } else if z_index == 2 {
        detector.z2 = updated_z as i16;
    } else {
        detector.z3 = updated_z as i16;
    }
}

/// Smooth the correlator peak.
fn track_peak(detector: &mut Detector)
    requires
        spec_detector_wf(*old(detector)),
    ensures
        *final(detector) == spec_track_peak(*old(detector)),
{
    let bin_factor = detector.bin_factor as i32;
    let a: i32 = detector.z0 as i32 - detector.z2 as i32;
    let b: i32 = detector.z1 as i32 - detector.z3 as i32;
    let magnitude: i32 = (if a < 0 { -a } else { a }) + (if b < 0 { -b } else { b });
    if (detector.peak as i32) < magnitude {
        let rise: i32 = magnitude - detector.peak as i32;
        assert(rise * bin_factor <= 163838 * 13107) by (nonlinear_arith)
            requires 0 < rise <= 163838, 0 <= bin_factor <= 13107;
        assert(rise * bin_factor >= 0) by (nonlinear_arith)
            requires 0 < rise, 0 <= bin_factor;
        let updated_peak: i32 = detector.peak as i32 + (rise * bin_factor) / Q15;
        detector.peak = updated_peak as i16;
    } else {
        detector.peak = magnitude as i16;
    }
}

/// Track the reverse-burst envelope.
fn track_burst(detector: &mut Detector)
    ensures
        *final(detector) == spec_track_burst(*old(detector)),
{
    let zd: i32 = detector.zd as i32;
    let peak: i32 = detector.peak as i32;
    assert(-449_688_987 <= zd * -13_723 <= 449_675_264) by (nonlinear_arith)
        requires -32768 <= zd <= 32767;
    assert(-449_675_264 <= peak * 13_723 <= 449_661_541) by (nonlinear_arith)
        requires -32768 <= peak <= 32767;
    let temp0: i32 = zd * -13_723;
    detector.zd = detector.peak;
    let temp1: i32 = peak * 13_723;
    let diff_peak: i16 = ((temp0 + temp1) / 1_024) as i16;
    if diff_peak < -983 {
        detector.dvd = detector.dvd.wrapping_sub(4);
    } else if detector.dvd < 0 {
        detector.dvd = detector.dvd.wrapping_add(1);
    }
    if detector.dvd < -12 && diff_peak > -656 {
        detector.dvu = detector.dvu.wrapping_add(2);
    } else if detector.dvu != 0 {
        detector.dvu = detector.dvu.wrapping_sub(1);
    }
}

/// Advance the qualification counter.
fn count(detector: &mut Detector, selected: bool, relax: bool)
    requires
        -MAX_FUDGE_FACTOR <= old(detector).fudge_factor <= MAX_FUDGE_FACTOR,
    ensures
        *final(detector) == spec_count(*old(detector), selected, relax),
{
    let mut threshold: i16 = detector.set_point;
    if selected {
        threshold = if relax {
            ((detector.set_point as i32 * 55) / 100) as i16
        } else {
            ((detector.set_point as i32 * 80) / 100) as i16
        };
    }
    if detector.peak > threshold {
        if detector.decode < detector.fudge_factor * 32 {
            detector.decode = detector.decode.wrapping_add(1);
        }
    } else if selected {
        if detector.peak > detector.hysteresis || relax {
            detector.decode = detector.decode.wrapping_sub(1);
        } else {
            detector.decode = detector.decode.wrapping_sub(4);
        }
    } else {
        detector.decode = 0;
    }
}

/// Reverse-burst reset, carrier gate, and phase advance.
fn settle(detector: &mut Detector, selected: bool, relax: bool, carrier_detect: bool) -> (qualified: bool)
    requires
        old(detector).z_index < 4,
    ensures
        *final(detector) == spec_settle(*old(detector), selected, relax, carrier_detect),
        qualified == spec_qualified(*final(detector)),
{
    if selected && !relax && detector.dvu > 24 {
        detector.decode = 0;
        detector.z0 = 0;
        detector.z1 = 0;
        detector.z2 = 0;
        detector.z3 = 0;
        detector.dvu = 0;
    }
    if detector.decode < 0 || !carrier_detect {
        detector.decode = 0;
    }
    let qualified = detector.decode >= detector.fudge_factor;
    if qualified && !selected {
        detector.zd = 0;
        detector.dvu = 0;
        detector.dvd = 0;
    }
    detector.z_index = (detector.z_index + 1) % 4;
    qualified
}

/// Consume one decoder sample for one detector and report qualification.
pub fn process_sample(
    detector: &mut Detector,
    accum: i16,
    selected: bool,
    relax: bool,
    carrier_detect: bool,
) -> (qualified: bool)
    requires
        spec_detector_wf(*old(detector)),
    ensures
        *final(detector) == spec_step(*old(detector), accum, selected, relax, carrier_detect),
        qualified == spec_qualified(*final(detector)),
        spec_detector_wf(*final(detector)),
{
    integrate(detector, accum);
    track_peak(detector);
    track_burst(detector);
    count(detector, selected, relax);
    settle(detector, selected, relax, carrier_detect)
}

/// What one detector span reports besides its final state.
#[derive(Clone, Copy, Debug, PartialEq, Eq)]
pub struct SpanReport {
    /// The selected detector probed at least once.
    pub selected_probed: bool,
    /// Qualification at the selected detector's final probe.
    pub selected_qualified: bool,
    /// Any probe in the span qualified.
    pub any_qualified: bool,
}

/// Clock-divided probing of one detector over the rest of a span.
///
/// The probe clock counts [`SCOUNT_MUL`] units per input sample; each probe
/// consumes the whole samples its clock has passed, reads the last of them,
/// and adds the detector's divider to the clock.  `remaining` counts the
/// input samples not yet passed.
pub open spec fn spec_span(
    d: Detector,
    samples: Seq<i16>,
    remaining: int,
    selected: bool,
    relax: bool,
    carrier_detect: bool,
    report: SpanReport,
) -> (Detector, SpanReport)
    decreases remaining,
{
    if 0 <= d.counter && d.counter < remaining * SCOUNT_MUL {
        let advance = (d.counter as int) / (SCOUNT_MUL as int) + 1;
        let next_remaining = remaining - advance;
        let index = samples.len() - next_remaining - 1;
        let wound = (d.counter - advance * SCOUNT_MUL) as i16;
        let clocked = Detector { counter: (wound + d.counter_factor) as i16, ..d };
        let stepped = spec_step(clocked, samples[index], selected, relax, carrier_detect);
        let qualified = spec_qualified(stepped);
        let next_report = SpanReport {
            selected_probed: report.selected_probed || selected,
            selected_qualified: if selected { qualified } else { report.selected_qualified },
            any_qualified: report.any_qualified || qualified,
        };
        spec_span(stepped, samples, next_remaining, selected, relax, carrier_detect, next_report)
    } else {
        (Detector { counter: (d.counter - remaining * SCOUNT_MUL) as i16, ..d }, report)
    }
}

/// The report before any probe.
pub open spec fn spec_empty_report() -> SpanReport {
    SpanReport { selected_probed: false, selected_qualified: false, any_qualified: false }
}

/// Probe one detector over a whole span.
pub fn process_span(
    detector: &mut Detector,
    samples: &[i16],
    selected: bool,
    relax: bool,
    carrier_detect: bool,
) -> (report: SpanReport)
    requires
        spec_detector_wf(*old(detector)),
        samples.len() <= MAX_SPAN_SAMPLES,
    ensures
        (*final(detector), report) == spec_span(
            *old(detector),
            samples@,
            samples.len() as int,
            selected,
            relax,
            carrier_detect,
            spec_empty_report(),
        ),
        spec_detector_wf(*final(detector)),
{
    let ghost target = spec_span(
        *detector,
        samples@,
        samples.len() as int,
        selected,
        relax,
        carrier_detect,
        spec_empty_report(),
    );
    let points: i32 = samples.len() as i32;
    let mut points_remaining: i32 = points;
    let mut report = SpanReport { selected_probed: false, selected_qualified: false, any_qualified: false };
    while (detector.counter as i32) < points_remaining * SCOUNT_MUL
        invariant
            samples.len() <= MAX_SPAN_SAMPLES,
            points == samples.len(),
            0 <= points_remaining <= points,
            spec_detector_wf(*detector),
            spec_span(*detector, samples@, points_remaining as int, selected, relax, carrier_detect, report)
                == target,
        decreases points_remaining,
    {
        let advance: i32 = detector.counter as i32 / SCOUNT_MUL + 1;
        let wound: i16 = (detector.counter as i32 - advance * SCOUNT_MUL) as i16;
        points_remaining = points_remaining - advance;
        let input_index: usize = (points - points_remaining - 1) as usize;
        detector.counter = (wound as i32 + detector.counter_factor as i32) as i16;
        let qualified = process_sample(detector, samples[input_index], selected, relax, carrier_detect);
        if selected {
            report.selected_probed = true;
            report.selected_qualified = qualified;
        }
        if qualified {
            report.any_qualified = true;
        }
    }
    detector.counter = (detector.counter as i32 - points_remaining * SCOUNT_MUL) as i16;
    report
}

/// Whether table tone `tone` takes part in a span: it is configured and,
/// while a tone is decoded, it is that tone.
pub open spec fn spec_participates(tone_mask: u64, decoded: i16, tone: int) -> bool {
    &&& tone_mask & (1u64 << (tone as u64)) != 0
    &&& (decoded < 0 || tone == decoded)
}

/// The span of table tone `tone` from the state before the call.
pub open spec fn spec_tone_span(
    detectors: Seq<Detector>,
    decoded: i16,
    relax: bool,
    samples: Seq<i16>,
    carrier_detect: bool,
    tone: int,
) -> (Detector, SpanReport) {
    spec_span(
        detectors[tone],
        samples,
        samples.len() as int,
        decoded == tone,
        relax,
        carrier_detect,
        spec_empty_report(),
    )
}

/// The highest participating tone below `limit` with a qualifying probe, or -1.
pub open spec fn spec_hit(
    tone_mask: u64,
    decoded: i16,
    relax: bool,
    detectors: Seq<Detector>,
    samples: Seq<i16>,
    carrier_detect: bool,
    limit: int,
) -> int
    decreases limit,
{
    if limit <= 0 {
        -1
    } else if spec_participates(tone_mask, decoded, limit - 1)
        && spec_tone_span(detectors, decoded, relax, samples, carrier_detect, limit - 1).1.any_qualified
    {
        limit - 1
    } else {
        spec_hit(tone_mask, decoded, relax, detectors, samples, carrier_detect, limit - 1)
    }
}

/// A sound detector stays sound through one clocked step.
proof fn lemma_clocked_step_wf(d: Detector, accum: i16, selected: bool, relax: bool, carrier_detect: bool)
    requires
        spec_detector_wf(d),
    ensures
        ({
            let advance = (d.counter as int) / (SCOUNT_MUL as int) + 1;
            let wound = (d.counter - advance * SCOUNT_MUL) as i16;
            let clocked = Detector { counter: (wound + d.counter_factor) as i16, ..d };
            spec_detector_wf(spec_step(clocked, accum, selected, relax, carrier_detect))
        }),
{
}

/// Once no more than the tail's samples remain, a span over `head + tail`
/// behaves as a span over `tail` alone.
proof fn lemma_span_suffix(
    d: Detector,
    head: Seq<i16>,
    tail: Seq<i16>,
    remaining: int,
    selected: bool,
    relax: bool,
    carrier_detect: bool,
    report: SpanReport,
)
    requires
        spec_detector_wf(d),
        0 <= remaining <= tail.len(),
    ensures
        spec_span(d, head + tail, remaining, selected, relax, carrier_detect, report)
            == spec_span(d, tail, remaining, selected, relax, carrier_detect, report),
    decreases remaining,
{
    if 0 <= d.counter && d.counter < remaining * SCOUNT_MUL {
        let advance = (d.counter as int) / (SCOUNT_MUL as int) + 1;
        let next_remaining = remaining - advance;
        let index = tail.len() - next_remaining - 1;
        assert((head + tail)[head.len() + index] == tail[index]);
        let wound = (d.counter - advance * SCOUNT_MUL) as i16;
        let clocked = Detector { counter: (wound + d.counter_factor) as i16, ..d };
        let stepped = spec_step(clocked, tail[index], selected, relax, carrier_detect);
        lemma_clocked_step_wf(d, tail[index], selected, relax, carrier_detect);
        let qualified = spec_qualified(stepped);
        let next_report = SpanReport {
            selected_probed: report.selected_probed || selected,
            selected_qualified: if selected { qualified } else { report.selected_qualified },
            any_qualified: report.any_qualified || qualified,
        };
        lemma_span_suffix(stepped, head, tail, next_remaining, selected, relax, carrier_detect, next_report);
    }
}

/// Splitting the samples of one detector span at any point changes nothing:
/// the probe clock, the correlator, and the accumulated report of the whole
/// span equal those of the first part continued over the second part.
pub proof fn lemma_span_partition(
    d: Detector,
    head: Seq<i16>,
    tail: Seq<i16>,
    remaining: int,
    selected: bool,
    relax: bool,
    carrier_detect: bool,
    report: SpanReport,
)
    requires
        spec_detector_wf(d),
        0 <= remaining <= head.len(),
    ensures
        ({
            let first = spec_span(d, head, remaining, selected, relax, carrier_detect, report);
            spec_span(d, head + tail, remaining + tail.len(), selected, relax, carrier_detect, report)
                == spec_span(first.0, tail, tail.len() as int, selected, relax, carrier_detect, first.1)
        }),
    decreases remaining,
{
    let whole = head + tail;
    if d.counter < remaining * SCOUNT_MUL {
        let advance = (d.counter as int) / (SCOUNT_MUL as int) + 1;
        let next_remaining = remaining - advance;
        let index = head.len() - next_remaining - 1;
        assert(whole[index] == head[index]);
        let wound = (d.counter - advance * SCOUNT_MUL) as i16;
        let clocked = Detector { counter: (wound + d.counter_factor) as i16, ..d };
        let stepped = spec_step(clocked, head[index], selected, relax, carrier_detect);
        lemma_clocked_step_wf(d, head[index], selected, relax, carrier_detect);
        let qualified = spec_qualified(stepped);
        let next_report = SpanReport {
            selected_probed: report.selected_probed || selected,
            selected_qualified: if selected { qualified } else { report.selected_qualified },
            any_qualified: report.any_qualified || qualified,
        };
        lemma_span_partition(stepped, head, tail, next_remaining, selected, relax, carrier_detect, next_report);
    } else {
        lemma_span_boundary(d, head, tail, remaining, selected, relax, carrier_detect, report);
    }
}

/// The partition step at the point where the first part's clock runs out.
proof fn lemma_span_boundary(
    d: Detector,
    head: Seq<i16>,
    tail: Seq<i16>,
    remaining: int,
    selected: bool,
    relax: bool,
    carrier_detect: bool,
    report: SpanReport,
)
    requires
        spec_detector_wf(d),
        0 <= remaining <= head.len(),
        d.counter >= remaining * SCOUNT_MUL,
    ensures
        ({
            let first = spec_span(d, head, remaining, selected, relax, carrier_detect, report);
            spec_span(d, head + tail, remaining + tail.len(), selected, relax, carrier_detect, report)
                == spec_span(first.0, tail, tail.len() as int, selected, relax, carrier_detect, first.1)
        }),
{
    let whole = head + tail;
    let rest = Detector { counter: (d.counter - remaining * SCOUNT_MUL) as i16, ..d };
    assert(rest.counter == d.counter - remaining * SCOUNT_MUL);
    let total = remaining + tail.len();
    if d.counter < total * SCOUNT_MUL {
        let advance = (d.counter as int) / (SCOUNT_MUL as int) + 1;
        let rest_advance = (rest.counter as int) / (SCOUNT_MUL as int) + 1;
        assert(rest_advance == advance - remaining);
        let next_remaining = total - advance;
        let index = whole.len() - next_remaining - 1;
        let tail_index = tail.len() - next_remaining - 1;
        assert(whole[index] == tail[tail_index]);
        let wound = (d.counter - advance * SCOUNT_MUL) as i16;
        let rest_wound = (rest.counter - rest_advance * SCOUNT_MUL) as i16;
        assert(wound == rest_wound);
        let clocked = Detector { counter: (wound + d.counter_factor) as i16, ..d };
        let stepped = spec_step(clocked, tail[tail_index], selected, relax, carrier_detect);
        lemma_clocked_step_wf(d, tail[tail_index], selected, relax, carrier_detect);
        let qualified = spec_qualified(stepped);
        let next_report = SpanReport {
            selected_probed: report.selected_probed || selected,
            selected_qualified: if selected { qualified } else { report.selected_qualified },
            any_qualified: report.any_qualified || qualified,
        };
        lemma_span_suffix(stepped, head, tail, next_remaining, selected, relax, carrier_detect, next_report);
    }
}

/// A hit is -1 or a tone below the limit.
proof fn lemma_hit_bounds(
    tone_mask: u64,
    decoded: i16,
    relax: bool,
    detectors: Seq<Detector>,
    samples: Seq<i16>,
    carrier_detect: bool,
    limit: int,
)
    requires
        limit >= 0,
    ensures
        -1 <= spec_hit(tone_mask, decoded, relax, detectors, samples, carrier_detect, limit) < limit
            || (limit == 0 && spec_hit(tone_mask, decoded, relax, detectors, samples, carrier_detect, limit) == -1),
    decreases limit,
{
    if limit > 0 {
        lemma_hit_bounds(tone_mask, decoded, relax, detectors, samples, carrier_detect, limit - 1);
    }
}

/// Whether any tone below `limit` participates.
pub open spec fn spec_any_participates(tone_mask: u64, decoded: i16, limit: int) -> bool
    decreases limit,
{
    if limit <= 0 {
        false
    } else {
        spec_participates(tone_mask, decoded, limit - 1) || spec_any_participates(tone_mask, decoded, limit - 1)
    }
}

/// A detector's progress through a span does not depend on the report it
/// accumulates.
pub proof fn lemma_span_report_free(
    d: Detector,
    samples: Seq<i16>,
    remaining: int,
    selected: bool,
    relax: bool,
    carrier_detect: bool,
    first: SpanReport,
    second: SpanReport,
)
    ensures
        spec_span(d, samples, remaining, selected, relax, carrier_detect, first).0
            == spec_span(d, samples, remaining, selected, relax, carrier_detect, second).0,
    decreases remaining,
{
    if 0 <= d.counter && d.counter < remaining * SCOUNT_MUL {
        let advance = (d.counter as int) / (SCOUNT_MUL as int) + 1;
        let next_remaining = remaining - advance;
        let index = samples.len() - next_remaining - 1;
        let wound = (d.counter - advance * SCOUNT_MUL) as i16;
        let clocked = Detector { counter: (wound + d.counter_factor) as i16, ..d };
        let stepped = spec_step(clocked, samples[index], selected, relax, carrier_detect);
        let qualified = spec_qualified(stepped);
        let next_first = SpanReport {
            selected_probed: first.selected_probed || selected,
            selected_qualified: if selected { qualified } else { first.selected_qualified },
            any_qualified: first.any_qualified || qualified,
        };
        let next_second = SpanReport {
            selected_probed: second.selected_probed || selected,
            selected_qualified: if selected { qualified } else { second.selected_qualified },
            any_qualified: second.any_qualified || qualified,
        };
        assert((d.counter as int) / (SCOUNT_MUL as int) >= 0) by (nonlinear_arith)
            requires d.counter >= 0;
        lemma_span_report_free(stepped, samples, next_remaining, selected, relax, carrier_detect, next_first, next_second);
    }
}

/// While a span changes no decode decision, the detector bank does not
/// depend on how its samples are split between calls: two consecutive
/// calls leave the receiver where one call over both leaves it.
pub proof fn lemma_bank_join(model: ReceiveModel, first: Seq<i16>, second: Seq<i16>, carrier_detect: bool)
    requires
        spec_receiver_wf(model),
        spec_process(model, first, carrier_detect).decoded == model.decoded,
        spec_process(spec_process(model, first, carrier_detect), second, carrier_detect).decoded == model.decoded,
        spec_process(model, first + second, carrier_detect).decoded == model.decoded,
    ensures
        spec_process(spec_process(model, first, carrier_detect), second, carrier_detect)
            == spec_process(model, first + second, carrier_detect),
{
    let middle = spec_process(model, first, carrier_detect);
    let whole = first + second;
    let banked = spec_banked(model, first, carrier_detect);
    assert(middle.detectors == banked);
    assert(middle.tone_mask == model.tone_mask && middle.relax == model.relax);
    let after = spec_process(middle, second, carrier_detect);
    let joined = spec_process(model, whole, carrier_detect);
    assert forall|t: int| 0 <= t < TONE_COUNT implies #[trigger] spec_banked(middle, second, carrier_detect)[t]
        == spec_banked(model, whole, carrier_detect)[t] by {
        if spec_participates(model.tone_mask, model.decoded, t) {
            let d = model.detectors[t];
            let selected = model.decoded == t;
            let e = spec_empty_report();
            let part = spec_span(d, first, first.len() as int, selected, model.relax, carrier_detect, e);
            lemma_span_partition(d, first, second, first.len() as int, selected, model.relax, carrier_detect, e);
            lemma_span_report_free(part.0, second, second.len() as int, selected, model.relax, carrier_detect, part.1, e);
            assert(banked[t] == part.0);
        }
    }
    assert(spec_banked(middle, second, carrier_detect) =~= spec_banked(model, whole, carrier_detect));
}

/// Callback-owned CTCSS receiver state for one fixed stream.
pub struct ReceiveState {
    tone_mask: u64,
    relax: bool,
    decoded: i16,
    blanking_samples: i32,
    detectors: Vec<Detector>,
}

/// Abstract value of a receiver.
pub struct ReceiveModel {
    /// Configured table tones.
    pub tone_mask: u64,
    /// Relaxed talk-off behavior.
    pub relax: bool,
    /// Decoded table index, or -1.
    pub decoded: i16,
    /// Decoder samples still blanked after a release.
    pub blanking_samples: i32,
    /// One detector per table tone.
    pub detectors: Seq<Detector>,
}

impl View for ReceiveState {
    type V = ReceiveModel;

    closed spec fn view(&self) -> ReceiveModel {
        ReceiveModel {
            tone_mask: self.tone_mask,
            relax: self.relax,
            decoded: self.decoded,
            blanking_samples: self.blanking_samples,
            detectors: self.detectors@,
        }
    }
}

/// Well-formed receiver: one sound detector per tone and a valid decode.
pub open spec fn spec_receiver_wf(model: ReceiveModel) -> bool {
    &&& model.detectors.len() == TONE_COUNT
    &&& forall|t: int| 0 <= t < TONE_COUNT ==> spec_detector_wf(#[trigger] model.detectors[t])
    &&& -1 <= model.decoded < TONE_COUNT
    &&& model.blanking_samples >= 0
}

/// Detectors after the bank pass: participating tones advanced, others kept.
pub open spec fn spec_banked(model: ReceiveModel, samples: Seq<i16>, carrier_detect: bool) -> Seq<Detector> {
    Seq::new(
        TONE_COUNT as nat,
        |t: int|
            if spec_participates(model.tone_mask, model.decoded, t) {
                spec_tone_span(model.detectors, model.decoded, model.relax, samples, carrier_detect, t).0
            } else {
                model.detectors[t]
            },
    )
}

/// A detector after the loss path.
pub open spec fn spec_cleared(d: Detector) -> Detector {
    Detector { decode: 0, z0: 0, z1: 0, z2: 0, z3: 0, ..d }
}

/// The receiver after one span, for an enabled receiver.
pub open spec fn spec_process(model: ReceiveModel, samples: Seq<i16>, carrier_detect: bool) -> ReceiveModel {
    let banked = spec_banked(model, samples, carrier_detect);
    let hit = spec_hit(model.tone_mask, model.decoded, model.relax, model.detectors, samples, carrier_detect, TONE_COUNT as int);
    let points: int = if spec_any_participates(model.tone_mask, model.decoded, TONE_COUNT as int) {
        samples.len() as int
    } else {
        0
    };
    let counted = if model.blanking_samples > 0 { model.blanking_samples - points } else { model.blanking_samples as int };
    let blanking: i32 = if counted < 0 { 0 } else { counted as i32 };
    let selected_report = if 0 <= model.decoded && spec_participates(model.tone_mask, model.decoded, model.decoded as int) {
        spec_tone_span(model.detectors, model.decoded, model.relax, samples, carrier_detect, model.decoded as int).1
    } else {
        spec_empty_report()
    };
    if hit >= 0 && model.decoded < 0 && blanking == 0 {
        ReceiveModel { decoded: hit as i16, blanking_samples: blanking, detectors: banked, ..model }
    } else if model.decoded >= 0 && selected_report.selected_probed && !selected_report.selected_qualified {
        ReceiveModel {
            decoded: -1i16,
            blanking_samples: RELEASE_BLANKING_SAMPLES,
            detectors: banked.map_values(|d: Detector| spec_cleared(d)),
            ..model
        }
    } else {
        ReceiveModel { blanking_samples: blanking, detectors: banked, ..model }
    }
}

/// The receiver after [`ReceiveState::configure`].
pub open spec fn spec_configured_model(tone_mask: u64, relax: bool) -> ReceiveModel {
    ReceiveModel {
        tone_mask: tone_mask & TONE_MASK,
        relax,
        decoded: -1i16,
        blanking_samples: 0,
        detectors: spec_counter_factors().map_values(|factor: i16| spec_configured(factor)),
    }
}

/// A configured receiver probes each table tone with a detector clocked
/// for that tone.
pub proof fn lemma_configured_clocks(tone_mask: u64, relax: bool)
    ensures
        spec_configured_model(tone_mask, relax).detectors.len() == TONE_COUNT,
        forall|t: int| 0 <= t < TONE_COUNT ==> #[trigger] spec_clock_matches(
            spec_configured_model(tone_mask, relax).detectors[t].counter_factor as int,
            spec_frequency_tenths_hz()[t] as int),
{
    lemma_counter_factors_match_tones();
    let model = spec_configured_model(tone_mask, relax);
    assert forall|t: int| 0 <= t < TONE_COUNT implies #[trigger] spec_clock_matches(
        model.detectors[t].counter_factor as int, spec_frequency_tenths_hz()[t] as int) by {
        assert(model.detectors[t] == spec_configured(spec_counter_factors()[t]));
        assert(spec_clock_matches(spec_counter_factors()[t] as int, spec_frequency_tenths_hz()[t] as int));
    }
}

impl ReceiveState {
    /// An unconfigured receiver: no tones, nothing decoded.
    pub fn new() -> (state: Self)
        ensures
            state@.tone_mask == 0,
            state@.decoded == -1,
            state@.blanking_samples == 0,
            spec_receiver_wf(state@),
    {
        let mut state = ReceiveState {
            tone_mask: 0,
            relax: false,
            decoded: -1,
            blanking_samples: 0,
            detectors: Vec::new(),
        };
        state.configure(0, false);
        assert(0u64 & TONE_MASK == 0) by (bit_vector);
        state
    }

    /// Reset the detector bank for a new selected-tone mask or relax mode.
    pub fn configure(&mut self, tone_mask: u64, relax: bool)
        ensures
            final(self)@ == spec_configured_model(tone_mask, relax),
            spec_receiver_wf(final(self)@),
    {
        let mut detectors: Vec<Detector> = Vec::new();
        let mut index: usize = 0;
        while index < TONE_COUNT
            invariant
                index <= TONE_COUNT,
                detectors.len() == index,
                forall|t: int| 0 <= t < index ==> detectors@[t] == spec_configured(spec_counter_factors()[t]),
            decreases TONE_COUNT - index,
        {
            detectors.push(Detector::configured(counter_factor(index)));
            index = index + 1;
        }
        self.tone_mask = tone_mask & TONE_MASK;
        self.relax = relax;
        self.decoded = -1;
        self.blanking_samples = 0;
        self.detectors = detectors;
        assert(self.detectors@ =~= spec_counter_factors().map_values(|factor: i16| spec_configured(factor)));
        assert forall|t: int| 0 <= t < TONE_COUNT implies spec_detector_wf(#[trigger] self.detectors@[t]) by {
            assert(spec_counter_factors()[t] >= 799);
        }
    }

    /// Return whether at least one table entry can be decoded.
    pub fn enabled(&self) -> (enabled: bool)
        ensures
            enabled == (self@.tone_mask != 0),
    {
        self.tone_mask != 0
    }

    /// Return the configured table-tone mask.
    pub fn tone_mask(&self) -> (mask: u64)
        ensures
            mask == self@.tone_mask,
    {
        self.tone_mask
    }

    /// Return whether relaxed talk-off release is selected.
    pub fn relax(&self) -> (relax: bool)
        ensures
            relax == self@.relax,
    {
        self.relax
    }

    /// Return the current decoded table index, or -1.
    pub fn decoded(&self) -> (decoded: i16)
        ensures
            decoded == self@.decoded,
    {
        self.decoded
    }

    /// Return the decoder samples still blanked after a release.
    pub fn blanking_samples(&self) -> (samples: i32)
        ensures
            samples == self@.blanking_samples,
    {
        self.blanking_samples
    }

    /// Return a copy of one table tone's detector.
    pub fn detector(&self, tone: usize) -> (detector: Detector)
        requires
            spec_receiver_wf(self@),
            tone < TONE_COUNT,
        ensures
            detector == self@.detectors[tone as int],
    {
        self.detectors[tone]
    }

    /// Replace one table tone's detector, for instance with tuned thresholds.
    pub fn set_detector(&mut self, tone: usize, detector: Detector)
        requires
            spec_receiver_wf(old(self)@),
            tone < TONE_COUNT,
            spec_detector_wf(detector),
        ensures
            final(self)@ == (ReceiveModel { detectors: old(self)@.detectors.update(tone as int, detector), ..old(self)@ }),
            spec_receiver_wf(final(self)@),
    {
        self.detectors.set(tone, detector);
    }

    /// Select a decoded tone directly, as a restored receiver would carry it.
    pub fn set_decoded(&mut self, decoded: i16, blanking_samples: i32)
        requires
            spec_receiver_wf(old(self)@),
            -1 <= decoded < TONE_COUNT,
            blanking_samples >= 0,
        ensures
            final(self)@ == (ReceiveModel { decoded, blanking_samples, ..old(self)@ }),
            spec_receiver_wf(final(self)@),
    {
        self.decoded = decoded;
        self.blanking_samples = blanking_samples;
    }

    /// Process one span of signed-16 center-slicer samples and return the
    /// decoded table index, or -1.
    ///
    /// Only configured tones run; while a tone is decoded only that tone runs.
    /// A new decode is accepted only outside release blanking.  A decoded
    /// tone is released only when its detector probed in this span and its
    /// final probe failed; release clears every detector and blanks 200 ms.
    #[verifier::rlimit(40)]
    pub fn process(&mut self, samples: &[i16], carrier_detect: bool) -> (decoded: i16)
        requires
            spec_receiver_wf(old(self)@),
            samples.len() <= MAX_SPAN_SAMPLES,
        ensures
            spec_receiver_wf(final(self)@),
            old(self)@.tone_mask == 0 ==> final(self)@ == old(self)@ && decoded == -1,
            old(self)@.tone_mask != 0 ==> final(self)@ == spec_process(old(self)@, samples@, carrier_detect)
                && decoded == final(self)@.decoded,
    {
        if !self.enabled() {
            return -1;
        }
        let ghost model = self@;
        let decoded_before = self.decoded;
        let mut hit: i16 = -1;
        let mut selected_report = SpanReport { selected_probed: false, selected_qualified: false, any_qualified: false };
        let mut points: i32 = 0;
        let mut tone_index: usize = 0;
        while tone_index < TONE_COUNT
            invariant
                spec_receiver_wf(model),
                samples.len() <= MAX_SPAN_SAMPLES,
                self.tone_mask == model.tone_mask,
                self.relax == model.relax,
                self.decoded == model.decoded,
                decoded_before == model.decoded,
                self.blanking_samples == model.blanking_samples,
                tone_index <= TONE_COUNT,
                self.detectors.len() == TONE_COUNT,
                forall|t: int| 0 <= t < tone_index ==> #[trigger] self.detectors@[t] == spec_banked(model, samples@, carrier_detect)[t],
                forall|t: int| tone_index <= t < TONE_COUNT ==> #[trigger] self.detectors@[t] == model.detectors[t],
                forall|t: int| 0 <= t < TONE_COUNT ==> spec_detector_wf(#[trigger] self.detectors@[t]),
                hit == spec_hit(model.tone_mask, model.decoded, model.relax, model.detectors, samples@, carrier_detect, tone_index as int),
                points == (if spec_any_participates(model.tone_mask, model.decoded, tone_index as int) { samples.len() as int } else { 0 }),
                selected_report == (if 0 <= model.decoded < tone_index && spec_participates(model.tone_mask, model.decoded, model.decoded as int) {
                    spec_tone_span(model.detectors, model.decoded, model.relax, samples@, carrier_detect, model.decoded as int).1
                } else {
                    spec_empty_report()
                }),
            decreases TONE_COUNT - tone_index,
        {
            if self.tone_mask & (1u64 << (tone_index as u64)) == 0
                || (decoded_before >= 0 && tone_index != decoded_before as usize)
            {
                tone_index = tone_index + 1;
                continue;
            }
            let selected = decoded_before == tone_index as i16;
            let mut detector = self.detectors[tone_index];
            let report = process_span(&mut detector, samples, selected, self.relax, carrier_detect);
            self.detectors.set(tone_index, detector);
            points = samples.len() as i32;
            if selected {
                selected_report = report;
            }
            if report.any_qualified {
                hit = tone_index as i16;
            }
            tone_index = tone_index + 1;
        }

        let ghost banked = spec_banked(model, samples@, carrier_detect);
        assert(self.detectors@ =~= banked);
        proof {
            lemma_hit_bounds(model.tone_mask, model.decoded, model.relax, model.detectors, samples@, carrier_detect, TONE_COUNT as int);
        }
        if self.blanking_samples > 0 {
            self.blanking_samples = self.blanking_samples - points;
        }
        if self.blanking_samples < 0 {
            self.blanking_samples = 0;
        }
        if hit >= 0 && self.decoded < 0 && self.blanking_samples == 0 {
            self.decoded = hit;
        } else if self.decoded >= 0 && selected_report.selected_probed && !selected_report.selected_qualified {
            self.blanking_samples = RELEASE_BLANKING_SAMPLES;
            self.decoded = -1;
            let mut index: usize = 0;
            while index < TONE_COUNT
                invariant
                    index <= TONE_COUNT,
                    self.detectors.len() == TONE_COUNT,
                    forall|t: int| 0 <= t < index ==> #[trigger] self.detectors@[t] == spec_cleared(banked[t]),
                    forall|t: int| index <= t < TONE_COUNT ==> #[trigger] self.detectors@[t] == banked[t],
                    forall|t: int| 0 <= t < TONE_COUNT ==> spec_detector_wf(#[trigger] self.detectors@[t]),
                    banked.len() == TONE_COUNT,
                    self.decoded == -1,
                    self.blanking_samples == RELEASE_BLANKING_SAMPLES,
                    self.tone_mask == model.tone_mask,
                    self.relax == model.relax,
                decreases TONE_COUNT - index,
            {
                let mut detector = self.detectors[index];
                detector.clear_after_loss();
                self.detectors.set(index, detector);
                index = index + 1;
            }
            assert(self.detectors@ =~= banked.map_values(|d: Detector| spec_cleared(d)));
        }
        self.decoded
    }
}

} // verus!
