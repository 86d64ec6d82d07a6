use lib::ctcss_receive::{
    counter_factor, frequency_tenths_hz, process_sample, Detector, ReceiveState, Q15, RELEASE_BLANKING_SAMPLES,
    SAMPLE_RATE_HZ, SCOUNT_MUL, TONE_COUNT, TONE_MASK,
};

/// Signed-16 code of a canonical sample that is an exact code over 32768.
fn code(sample: f32) -> i16 {
    (sample * 32_768.0) as i16
}

fn codes(samples: &[f32]) -> Vec<i16> {
    samples.iter().map(|sample| code(*sample)).collect()
}

fn test_prepare_detector(state: &mut ReceiveState, tone_index: usize) {
    let mut detector = state.detector(tone_index);
    detector.counter = 0;
    detector.counter_factor = SCOUNT_MUL as i16;
    detector.bin_factor = Q15 as i16;
    detector.fudge_factor = 1;
    detector.peak = 0;
    detector.set_point = -1;
    detector.hysteresis = 0;
    detector.decode = 0;
    detector.z0 = 0;
    detector.z1 = 0;
    detector.z2 = 0;
    detector.z3 = 0;
    state.set_detector(tone_index, detector);
}

fn test_set_detector_release(state: &mut ReceiveState, tone_index: usize) {
    let mut detector = state.detector(tone_index);
    detector.counter = 0;
    detector.set_point = 1_000;
    detector.hysteresis = 100;
    detector.decode = 1;
    state.set_detector(tone_index, detector);
}

#[test]
fn hysteresis_release_and_reverse_burst_reset_selected_decode() {
    let mut detector = Detector {
        fudge_factor: 1,
        decode: 10,
        peak: 100,
        z0: 100,
        set_point: 1000,
        hysteresis: 10,
        ..Detector::default()
    };
    assert!(process_sample(&mut detector, 0, true, false, true));
    assert_eq!(detector.decode, 9);
    detector.dvu = 30;
    assert!(!process_sample(&mut detector, 0, true, false, true));
    assert_eq!(detector.decode, 0);
    assert_eq!([detector.z0, detector.z1, detector.z2, detector.z3], [0; 4]);
    assert_eq!(detector.dvu, 0);
}

#[test]
fn relaxed_release_and_saturated_decode_preserve_correlator_rules() {
    let mut detector = Detector { fudge_factor: 1, decode: 32, set_point: -100, ..Detector::default() };
    assert!(process_sample(&mut detector, 0, true, true, true));
    assert_eq!(detector.decode, 32);
    detector.set_point = 1000;
    detector.hysteresis = 1000;
    detector.decode = 10;
    assert!(process_sample(&mut detector, 0, true, true, true));
    assert_eq!(detector.decode, 9);
}

#[test]
fn disabled_and_multitone_probe_and_expired_blanking_are_deterministic() {
    let mut state = ReceiveState::new();
    assert_eq!(state.process(&[], true), -1);
    state.configure(3, false);
    test_prepare_detector(&mut state, 0);
    let mut detector = state.detector(0);
    detector.set_point = -100;
    state.set_detector(0, detector);
    state.set_decoded(0, 1);
    assert_eq!(state.process(&codes(&[0.0; 2]), true), 0);
    assert_eq!(state.blanking_samples(), 0);
}

/// Prime one selected production-divider detector without changing its clock.
fn activate_selected_detector(state: &mut ReceiveState, tone_index: usize) {
    state.configure(1_u64 << tone_index, false);
    state.set_decoded(tone_index as i16, 0);
    let mut detector = state.detector(tone_index);
    detector.counter = 0;
    detector.decode = detector.fudge_factor;
    detector.set_point = -2;
    detector.hysteresis = 0;
    detector.peak = 0;
    detector.z0 = 0;
    detector.z1 = 0;
    detector.z2 = 0;
    detector.z3 = 0;
    detector.dvu = 0;
    detector.dvd = 0;
    detector.zd = 0;
    state.set_detector(tone_index, detector);
}

/// Make one selected detector probe every supplied sample for focused loss tests.
fn prepare_fast_selected_detector(state: &mut ReceiveState, tone_index: usize, set_point: i16) {
    activate_selected_detector(state, tone_index);
    let mut detector = state.detector(tone_index);
    detector.counter = 0;
    detector.counter_factor = SCOUNT_MUL as i16;
    detector.bin_factor = Q15 as i16;
    detector.fudge_factor = 1;
    detector.decode = 1;
    detector.set_point = set_point;
    detector.hysteresis = 0;
    state.set_detector(tone_index, detector);
}

#[test]
fn table_matches_the_deployed_legacy_tones_and_divisors() {
    assert_eq!(TONE_COUNT, 38);
    assert_eq!(frequency_tenths_hz(0), 670);
    assert_eq!(frequency_tenths_hz(11), 1_000);
    assert_eq!(frequency_tenths_hz(37), 2_503);
    assert_eq!(counter_factor(0), 2_985);
    assert_eq!(counter_factor(11), 2_000);
    assert_eq!(counter_factor(37), 799);
}

#[test]
fn configuration_masks_unsupported_bits_and_resets_state() {
    let mut state = ReceiveState::new();
    state.configure(u64::MAX, true);
    assert!(state.enabled());
    assert_eq!(state.tone_mask(), TONE_MASK);
    assert!(state.relax());
    state.set_decoded(11, 99);
    state.configure(1_u64 << 11, false);
    assert_eq!(state.decoded(), -1);
    assert_eq!(state.blanking_samples(), 0);
    assert_eq!(state.tone_mask(), 1_u64 << 11);
    assert!(!state.relax());
}

#[test]
fn qualification_release_and_blank_behavior_match_the_fixed_point_state_machine() {
    let mut state = ReceiveState::new();
    state.configure(1_u64 << 11, false);
    test_prepare_detector(&mut state, 11);
    let silence = codes(&[0.0_f32]);
    assert_eq!(state.process(&silence, true), 11);
    test_set_detector_release(&mut state, 11);
    assert_eq!(state.process(&silence, true), -1);
    assert_eq!(state.blanking_samples(), RELEASE_BLANKING_SAMPLES);
    let mut detector = state.detector(11);
    detector.set_point = -1;
    detector.counter = 0;
    state.set_detector(11, detector);
    assert_eq!(state.process(&silence, true), -1);
    assert_eq!(state.blanking_samples(), RELEASE_BLANKING_SAMPLES - 1);
}

#[test]
fn active_decode_survives_a_callback_without_a_selected_detector_probe() {
    const TONE_INDEX: usize = 11;
    let mut state = ReceiveState::new();
    let silence = codes(&[0.0_f32]);

    activate_selected_detector(&mut state, TONE_INDEX);
    let mut detector = state.detector(TONE_INDEX);
    detector.counter = SCOUNT_MUL as i16;
    state.set_detector(TONE_INDEX, detector);
    assert_eq!(state.process(&silence, true), TONE_INDEX as i16);
    assert_eq!(state.decoded(), TONE_INDEX as i16);
    assert_eq!(state.detector(TONE_INDEX).counter, 0);
}

#[test]
fn active_tone_matches_full_and_irregular_callback_partitions() {
    const TONE_INDEX: usize = 11;
    const PARTITIONS: [usize; 5] = [5, 1, 7, 5, 942];
    let samples = codes(&[0.0_f32; 960]);
    let mut whole = ReceiveState::new();
    let mut split = ReceiveState::new();
    let mut offset = 0;

    activate_selected_detector(&mut whole, TONE_INDEX);
    activate_selected_detector(&mut split, TONE_INDEX);
    assert_eq!(whole.process(&samples, true), TONE_INDEX as i16);
    for count in PARTITIONS {
        let span = &samples[offset..offset + count];
        assert_eq!(split.process(span, true), TONE_INDEX as i16);
        offset += count;
    }
    assert_eq!(offset, samples.len());
    assert_eq!(split.decoded(), whole.decoded());
    let expected = whole.detector(TONE_INDEX);
    let actual = split.detector(TONE_INDEX);

    assert_eq!(actual.counter, expected.counter);
    assert_eq!(actual.peak, expected.peak);
    assert_eq!(actual.z_index, expected.z_index);
    assert_eq!(
        [actual.z0, actual.z1, actual.z2, actual.z3],
        [expected.z0, expected.z1, expected.z2, expected.z3]
    );
    assert_eq!(actual.dvu, expected.dvu);
    assert_eq!(actual.dvd, expected.dvd);
    assert_eq!(actual.zd, expected.zd);
    assert_eq!(actual.decode, expected.decode);
}

#[test]
fn selected_decode_uses_the_final_probe_when_a_callback_contains_loss() {
    const TONE_INDEX: usize = 11;
    let mut state = ReceiveState::new();
    let samples = codes(&[1_000.0_f32 / 32_768.0, 0.0, 0.0, 0.0, 0.0, 0.0]);

    prepare_fast_selected_detector(&mut state, TONE_INDEX, 1);
    assert_eq!(state.process(&samples, true), -1);
    assert_eq!(state.decoded(), -1);
    assert_eq!(state.blanking_samples(), RELEASE_BLANKING_SAMPLES);
}

#[test]
fn selected_decode_survives_a_transient_probe_loss_that_recovers_in_one_callback() {
    const TONE_INDEX: usize = 11;
    let mut state = ReceiveState::new();
    let samples = codes(&[0.0_f32, 1_000.0 / 32_768.0]);

    prepare_fast_selected_detector(&mut state, TONE_INDEX, 1_000);
    assert_eq!(state.process(&samples, true), TONE_INDEX as i16);
    assert_eq!(state.decoded(), TONE_INDEX as i16);
    assert_eq!(state.blanking_samples(), 0);
}

#[test]
fn deployed_100_hz_divider_qualifies_a_center_sliced_tone() {
    let mut state = ReceiveState::new();
    let mut samples = [0.0_f32; SAMPLE_RATE_HZ as usize];

    state.configure(1_u64 << 11, false);
    for (index, sample) in samples.iter_mut().enumerate() {
        let phase = 2.0 * core::f32::consts::PI * 100.0 * index as f32 / SAMPLE_RATE_HZ as f32;
        *sample = if phase.sin() >= 0.0 { 625.0 } else { -625.0 } / 32_768.0;
    }
    for block in samples.chunks(160) {
        state.process(&codes(block), true);
    }
    assert_eq!(state.decoded(), 11);
}

#[test]
fn carrier_loss_and_f32_i16_mapping_preserve_compatibility_inputs() {
    let mut state = ReceiveState::new();
    state.configure(1_u64 << 11, false);
    test_prepare_detector(&mut state, 11);
    let samples = [100.0_f32 / 32_768.0];
    assert_eq!(code(samples[0]), 100);
    assert_eq!(state.process(&codes(&samples), false), -1);
    assert_eq!(state.detector(11).decode, 0);
}
