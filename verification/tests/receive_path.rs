use lib::receive_path::{
    advance_vox_hold, delay_gate_boundaries, filter_controls, maximum_baseband_output_count, next_gate_remainder,
    partition_point, record_emission_offsets, setup, valid_filter, CenterSlicerConfig, Config, CtcssConfig,
    DeemphasisConfig, DelayConfig, EnvelopeConfig, FilterConfig, FilterControls, FrontendConfig, FrontendSpan,
    ProcessResult, ReceivePath, VoxConfig, BASE_SAMPLE_RATE_HZ, LEGACY_DELAY_GATE_FRAMES,
};
use lib::RADIO_INVALID_ARGUMENT;

const FRONTEND: [i16; 4] = [16_384, 8_192, -4_096, 2_048];
const NOISE: [i16; 3] = [4_096, -2_048, 1_024];
const LSD: [i16; 3] = [16_384, 8_192, -4_096];
const HPF: [i16; 4] = [32_767, -1_024, 512, -256];

fn configuration(maximum_native_frames: u32) -> Config<'static> {
    Config {
        native_sample_rate_hz: 48_000,
        maximum_native_frames,
        frontend: FrontendConfig {
            baseband_coefficients: &FRONTEND,
            baseband_calc_adjust: 16_384,
            baseband_output_gain: 256,
            noise_coefficients: &NOISE,
            noise_divisor: 4_096,
            decimate: 6,
            calibration_window: 960,
            open_level: 1,
            hysteresis: 0,
            noise_squelch: true,
        },
        lsd_filter: FilterConfig { coefficients: &LSD, input_gain: 256, output_gain: 256, calc_adjust: 16_384 },
        hpf_filter: Some(FilterConfig { coefficients: &HPF, input_gain: 256, output_gain: 256, calc_adjust: 32_767 }),
        center_slicer: None,
        deemphasis: Some(DeemphasisConfig { output_coefficient: 6_878, feedback_coefficient: 25_889, output_gain: 256 }),
        delay: Some(DelayConfig { storage_capacity: 64, lead: 5 }),
        vox: None,
        measurement: Some(EnvelopeConfig { decay_factor: 10, threshold: 0 }),
        ctcss: None,
        dcs: None,
    }
}

#[test]
fn constructor_rejects_each_invalid_frontend_and_detector_configuration() {
    let cases: &[fn(&mut Config<'_>)] = &[
        |c| c.native_sample_rate_hz = 8_000,
        |c| c.frontend.decimate = 0,
        |c| c.frontend.decimate = 7,
        |c| c.frontend.decimate = 8,
        |c| c.maximum_native_frames = 0,
        |c| c.frontend.baseband_coefficients = &[],
        |c| c.frontend.noise_coefficients = &[],
        |c| c.frontend.noise_coefficients = &[1; 5],
        |c| c.frontend.baseband_calc_adjust = 0,
        |c| c.frontend.noise_divisor = 0,
        |c| c.frontend.calibration_window = 0,
        |c| c.lsd_filter.coefficients = &[],
        |c| c.lsd_filter.calc_adjust = 0,
        |c| c.hpf_filter.as_mut().unwrap().calc_adjust = 0,
        |c| c.hpf_filter = None,
        |c| {
            c.hpf_filter = None;
            c.deemphasis = None;
        },
        |c| c.ctcss = Some(CtcssConfig { tone_mask: 1, relax: false }),
        |c| c.delay.as_mut().unwrap().storage_capacity = 0,
        |c| c.delay.as_mut().unwrap().lead = 65,
        |c| {
            c.vox = Some(VoxConfig {
                envelope: EnvelopeConfig { decay_factor: 1, threshold: 0 },
                hang_time_ms: i32::MAX,
            })
        },
    ];
    for configure in cases {
        let mut config = configuration(32);
        configure(&mut config);
        assert!(setup(&config).is_err());
    }
    let mut native_only = configuration(32);
    native_only.hpf_filter = None;
    native_only.deemphasis = None;
    native_only.delay = None;
    assert!(setup(&native_only).is_ok());
}

#[test]
fn deployed_native_and_base_rates_remain_fixed() {
    assert_eq!(BASE_SAMPLE_RATE_HZ, 8_000);
    let path = setup(&configuration(960)).expect("valid deployed setup");
    // 960 native frames reserve 161 baseband slots so a carried decimator
    // phase never overruns a workspace.
    assert_eq!(path.baseband_capacity, 161);
}

#[test]
fn maximum_callback_after_a_carried_phase_stays_within_preallocated_capacity() {
    let mut path = ReceivePath::new(configuration(960)).expect("valid path");
    // One native frame leaves the decimator one count short of a period.
    let _ = path.process(&span(1, 6, &[0], true)).expect("carried phase seed");
    let result = path.process(&span(960, 5, &[1_000], true)).expect("maximum callback");
    assert!(result.baseband_frame_count as usize <= path.baseband_capacity());
    assert_eq!(path.baseband_capacity(), 161);
}

#[test]
fn setup_reports_sizes_and_filter_controls() {
    let mut config = configuration(960);
    config.vox = Some(VoxConfig { envelope: EnvelopeConfig { decay_factor: 1, threshold: 0 }, hang_time_ms: 120 });
    let path = setup(&config).expect("valid setup");
    assert_eq!(path.maximum_native_frames, 960);
    assert_eq!(path.native_samples, 1_920);
    assert_eq!(path.delay_storage_capacity, 64);
    assert_eq!(path.vox_hang_frames, 120 * 48);
    assert_eq!(path.initial_decimator, 6);
    assert_eq!(path.lsd_controls, FilterControls { input_gain: 256, output_gain: 256, calc_adjust: 16_384 });
    assert_eq!(path.hpf_controls, Some(FilterControls { input_gain: 256, output_gain: 256, calc_adjust: 32_767 }));
    assert_eq!(setup(&configuration(0)).err(), Some(RADIO_INVALID_ARGUMENT));
}

#[test]
fn filter_validation_and_controls() {
    let filter = FilterConfig { coefficients: &LSD, input_gain: 3, output_gain: 5, calc_adjust: 7 };
    assert!(valid_filter(filter));
    assert_eq!(filter_controls(filter), FilterControls { input_gain: 3, output_gain: 5, calc_adjust: 7 });
    assert!(!valid_filter(FilterConfig { calc_adjust: 0, ..filter }));
    assert!(!valid_filter(FilterConfig { coefficients: &[], ..filter }));
}

#[test]
fn emission_offsets_follow_the_carried_decimator() {
    assert_eq!(record_emission_offsets(6, 20, 6), vec![6, 12, 18]);
    assert_eq!(record_emission_offsets(2, 9, 6), vec![2, 8]);
    assert_eq!(record_emission_offsets(0, 7, 6), vec![1, 7]);
    assert_eq!(maximum_baseband_output_count(960, 6), 160);
    assert_eq!(maximum_baseband_output_count(usize::MAX, 6), usize::MAX / 6);
}

#[test]
fn vox_hold_restarts_at_the_last_qualifying_sample() {
    // Qualifying samples at offsets 6 and 12; the span ends at frame 20.
    let offsets = [6_u32, 12, 18];
    let envelope = [5_i16, 9, 1];
    assert_eq!(advance_vox_hold(0, 100, &offsets, &envelope, 5, 20), 92);
    // No qualifying sample: the previous hold counts down from the start.
    assert_eq!(advance_vox_hold(30, 100, &offsets, &[0, 0, 0], 5, 20), 10);
    assert_eq!(advance_vox_hold(3, 100, &[], &[], 5, 20), 0);
}

#[test]
fn vox_hold_is_independent_of_partitioning() {
    let offsets = [6_u32, 12, 18, 24, 30, 36];
    let envelope = [0_i16, 7, 0, 0, 7, 0];
    let whole = advance_vox_hold(50, 40, &offsets, &envelope, 5, 40);
    // The same stream in spans of 13 and 27 frames, offsets rebased.
    let first = advance_vox_hold(50, 40, &[6, 12], &[0, 7], 5, 13);
    let second = advance_vox_hold(first, 40, &[5, 11, 17, 23], &[0, 0, 7, 0], 5, 27);
    assert_eq!(whole, second);
    assert_eq!(whole, 30);
}

#[test]
fn delay_gate_boundaries_and_remainder() {
    assert_eq!(LEGACY_DELAY_GATE_FRAMES, 960);
    assert_eq!(delay_gate_boundaries(0, 959), Vec::<u32>::new());
    assert_eq!(delay_gate_boundaries(0, 960), vec![960]);
    assert_eq!(delay_gate_boundaries(950, 2_000), vec![10, 970, 1_930]);
    assert_eq!(next_gate_remainder(950, 2_000), (950 + 2_000) % 960);
    assert_eq!(next_gate_remainder(0, 960), 0);
}

#[test]
fn partition_point_splits_sorted_offsets() {
    let offsets = [2_u32, 8, 8, 14];
    assert_eq!(partition_point(&offsets, 1), 0);
    assert_eq!(partition_point(&offsets, 8), 3);
    assert_eq!(partition_point(&offsets, 20), 4);
    assert_eq!(partition_point(&[], 5), 0);
}

/// A frontend report for `frames` native frames from decimator phase
/// `decimator`, with baseband codes drawn from `codes`.
fn span(frames: u32, decimator: i16, codes: &[i16], open: bool) -> FrontendSpan {
    let emitted = record_emission_offsets(decimator, frames, 6).len();
    FrontendSpan {
        native_frame_count: frames,
        blanked_native_frames: 0,
        decimator_before: decimator,
        baseband: codes.iter().copied().cycle().take(emitted).collect(),
        carrier_gates: vec![u8::from(open); frames as usize],
        comparator_open: open,
        rssi_peak: 7,
        rssi_updated: false,
        dcs_valid: false,
    }
}

#[test]
fn path_construction_copies_tables_and_sizes_workspaces() {
    let path = ReceivePath::new(configuration(960)).expect("valid path");
    assert_eq!(path.baseband_capacity(), 161);
    assert_eq!(path.lsd_coefficients, LSD.to_vec());
    assert_eq!(path.lsd_history, vec![0; 3]);
    assert_eq!(path.hpf_history, vec![0; 4]);
    assert_eq!(path.delay_storage, vec![0; 64]);
    assert_eq!(path.last_result(), ProcessResult::default());
    assert!(path.voice_output().is_empty());
    assert!(ReceivePath::new(configuration(0)).is_err());
}

#[test]
fn blanking_preserves_the_contiguous_legacy_prefix_across_callbacks() {
    let mut path = ReceivePath::new(configuration(960)).expect("valid path");
    path.arm_receive_blanking(1);
    assert_eq!(path.apply_receive_blanking(36), 36);
    assert_eq!(path.apply_receive_blanking(36), 12);
    assert_eq!(path.apply_receive_blanking(36), 0);
    path.arm_receive_blanking(-5);
    assert_eq!(path.apply_receive_blanking(36), 0);
}

#[test]
fn path_rejects_inconsistent_frontend_reports_without_changing_state() {
    let mut path = ReceivePath::new(configuration(32)).expect("valid path");
    let mut wrong_count = span(12, 6, &[100], true);
    wrong_count.baseband.push(5);
    assert_eq!(path.process(&wrong_count), Err(RADIO_INVALID_ARGUMENT));
    let mut wrong_gates = span(12, 6, &[100], true);
    wrong_gates.carrier_gates.pop();
    assert_eq!(path.process(&wrong_gates), Err(RADIO_INVALID_ARGUMENT));
    assert_eq!(path.process(&span(33, 6, &[100], true)), Err(RADIO_INVALID_ARGUMENT));
    assert_eq!(path.process(&span(12, 7, &[100], true)), Err(RADIO_INVALID_ARGUMENT));
    assert_eq!(path.last_result(), ProcessResult::default());
}

#[test]
fn incomplete_decimation_interval_emits_no_baseband_samples() {
    let mut path = ReceivePath::new(configuration(960)).expect("valid path");
    let result = path.process(&span(5, 6, &[1_000], true)).expect("five native frames");
    assert_eq!(result.native_frame_count, 5);
    assert_eq!(result.baseband_frame_count, 0);
    assert!(path.baseband_output().is_empty());
    assert!(path.voice_output().is_empty());
    assert_eq!(path.carrier_gates().len(), 5);
    assert!(result.carrier_detect);
    assert_eq!(result.rssi_peak, 7);
}

#[test]
fn path_voice_runs_through_high_pass_deemphasis_and_delay() {
    let mut path = ReceivePath::new(configuration(960)).expect("valid path");
    let result = path.process(&span(12, 6, &[8_000, -8_000], true)).expect("two samples");
    assert_eq!(result.baseband_frame_count, 2);
    assert_eq!(path.baseband_output(), vec![8_000, -8_000]);
    // The delay's five-sample lead reaches back into zeroed storage.
    assert_eq!(path.voice_output(), vec![0, 0]);
    assert_ne!(path.voice[0], 0);
    assert_eq!(path.delay_state.dirty, 1);
    assert_eq!(path.delay_state.input_index, 2);
}

#[test]
fn path_empty_span_republishes_current_decisions() {
    let mut path = ReceivePath::new(configuration(960)).expect("valid path");
    let mut empty = span(0, 6, &[0], false);
    empty.dcs_valid = true;
    let result = path.process(&empty).expect("empty span");
    assert_eq!(result.native_frame_count, 0);
    assert_eq!(result.ctcss_decoded, -1);
    assert!(result.dcs_valid);
    assert_eq!(result.rssi_peak, 7);
    assert!(!result.carrier_detect);
    assert!(path.carrier_gates().is_empty());
}

#[test]
fn path_vox_holds_the_carrier_for_the_hang_after_a_qualifying_sample() {
    let mut config = configuration(960);
    config.frontend.noise_squelch = false;
    config.vox = Some(VoxConfig { envelope: EnvelopeConfig { decay_factor: 3, threshold: 1 }, hang_time_ms: 1 });
    let mut path = ReceivePath::new(config).expect("VOX path");
    let result = path.process(&span(6, 6, &[5_000], false)).expect("VOX span");
    assert!(result.vox_detect);
    assert!(result.carrier_detect);
    // The qualifying sample is the span's last frame: a full 48-frame hang.
    assert_eq!(path.vox_hold_remaining_frames, 48);
    // Spans that emit no baseband sample only count the hold down.
    for _ in 0..9 {
        assert!(path.process(&span(5, 6, &[0], false)).expect("quiet span").carrier_detect);
    }
    assert_eq!(path.vox_hold_remaining_frames, 3);
    let expired = path.process(&span(3, 6, &[0], false)).expect("expiring span");
    assert!(!expired.carrier_detect);
    assert!(!expired.vox_detect);
}

#[test]
fn path_ctcss_trace_and_decoder_peak_follow_the_center_slicer() {
    let mut config = configuration(960);
    config.ctcss = Some(CtcssConfig { tone_mask: 1, relax: false });
    config.center_slicer = Some(CenterSlicerConfig { limit: 16_384, setpoint: 8_192, decay_factor: 1, trace: true });
    let mut path = ReceivePath::new(config).expect("CTCSS path");
    let result = path.process(&span(24, 6, &[4_000, -4_000], true)).expect("CTCSS span");
    assert_eq!(result.baseband_frame_count, 4);
    assert_eq!(result.ctcss_decoded, -1);
    assert_eq!(result.ctcss_decoder_peak, path.center_state.peak);
    assert_eq!(path.center_trace().expect("trace enabled").len(), 4);
    assert_eq!(path.center_trace_phase, 4);
    assert_eq!(path.lsd.len(), 4);
}

fn prepare_detector(path: &mut ReceivePath, tone_index: usize) {
    let mut detector = path.ctcss_state.detector(tone_index);
    detector.counter = 0;
    detector.counter_factor = lib::ctcss_receive::SCOUNT_MUL as i16;
    detector.bin_factor = lib::ctcss_receive::Q15 as i16;
    detector.fudge_factor = 1;
    detector.peak = 0;
    detector.set_point = -1;
    detector.hysteresis = 0;
    detector.decode = 0;
    detector.z0 = 0;
    detector.z1 = 0;
    detector.z2 = 0;
    detector.z3 = 0;
    path.ctcss_state.set_detector(tone_index, detector);
}

fn set_detector_release(path: &mut ReceivePath, tone_index: usize) {
    let mut detector = path.ctcss_state.detector(tone_index);
    detector.counter = 0;
    detector.set_point = 1_000;
    detector.hysteresis = 100;
    detector.decode = 1;
    path.ctcss_state.set_detector(tone_index, detector);
}

#[test]
fn cpu_saver_suspends_ctcss_acquisition_but_monitors_a_qualified_tone() {
    let mut config = configuration(6);
    config.frontend.noise_squelch = false;
    config.ctcss = Some(CtcssConfig { tone_mask: 1, relax: false });
    config.center_slicer = Some(CenterSlicerConfig { limit: 16_384, setpoint: 8_192, decay_factor: 1, trace: false });
    let mut path = ReceivePath::new(config).expect("valid CTCSS path");
    prepare_detector(&mut path, 0);
    path.center_state.peak = 2_400;
    assert_eq!(path.process(&span(0, 6, &[0], true)).unwrap().ctcss_decoder_peak, 2_400);
    path.set_voice_processing_active(false);
    let silence = span(6, 6, &[0], true);
    let sleeping = path.process(&silence).expect("sleeping receiver");
    assert!(sleeping.carrier_detect);
    assert_eq!(sleeping.ctcss_decoded, -1);
    assert_eq!(path.ctcss_state.detector(0).decode, 0);

    path.set_voice_processing_active(true);
    assert_eq!(path.process(&silence).unwrap().ctcss_decoded, 0);
    path.set_voice_processing_active(false);
    set_detector_release(&mut path, 0);
    assert_eq!(path.process(&silence).unwrap().ctcss_decoded, -1);
    assert_eq!(path.ctcss_state.blanking_samples(), 1_600);
}

#[test]
fn delay_gate_boundaries_are_independent_of_partitioning() {
    let whole = delay_gate_boundaries(950, 2_100);
    let head = delay_gate_boundaries(950, 100);
    let tail: Vec<u32> = delay_gate_boundaries(next_gate_remainder(950, 100), 2_000).iter().map(|b| b + 100).collect();
    assert_eq!(whole, vec![10, 970, 1_930]);
    assert_eq!([head, tail].concat(), whole);
}

#[test]
fn voice_stages_are_independent_of_partitioning() {
    let mut config = configuration(960);
    config.delay = None;
    let mut split = ReceivePath::new(config).expect("split path");
    let mut whole = ReceivePath::new(config).expect("whole path");
    let _ = split.process(&span(12, 6, &[9_000, -3_000], true)).expect("first span");
    let mut joined = split.voice_output();
    let _ = split.process(&span(12, 6, &[12_000, 500], true)).expect("second span");
    joined.extend(split.voice_output());
    let _ = whole.process(&span(24, 6, &[9_000, -3_000, 12_000, 500], true)).expect("whole span");
    assert_eq!(joined, whole.voice_output());
    assert_eq!(split.hpf_history, whole.hpf_history);
    assert_eq!(split.deemphasis_state.accumulator, whole.deemphasis_state.accumulator);
}

#[test]
fn ctcss_stages_are_independent_of_partitioning() {
    let mut config = configuration(960);
    config.ctcss = Some(CtcssConfig { tone_mask: 1, relax: false });
    config.center_slicer = Some(CenterSlicerConfig { limit: 2_000, setpoint: 1_500, decay_factor: 2, trace: false });
    let mut split = ReceivePath::new(config).expect("split path");
    let mut whole = ReceivePath::new(config).expect("whole path");
    let _ = split.process(&span(18, 6, &[6_000, -2_000, 9_000], true)).expect("first span");
    let (mut lsd, mut limited) = (split.lsd.clone(), split.limited.clone());
    let _ = split.process(&span(12, 6, &[-7_000, 3_000], true)).expect("second span");
    lsd.extend(split.lsd.iter());
    limited.extend(split.limited.iter());
    let _ = whole.process(&span(30, 6, &[6_000, -2_000, 9_000, -7_000, 3_000], true)).expect("whole span");
    assert_eq!(lsd, whole.lsd);
    assert_eq!(limited, whole.limited);
    assert_eq!(split.center_state, whole.center_state);
    assert_eq!(split.lsd_history, whole.lsd_history);
}
