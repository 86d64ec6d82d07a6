use lib::receive_frontend::{
    accumulate_rssi, decimate_step, frontend_span, legacy_history_shift, maximum_baseband_output_count, noise_sample,
    FrontendControls, RssiWindow,
};
use lib::RADIO_INVALID_ARGUMENT;

fn span_controls() -> FrontendControls {
    FrontendControls {
        baseband_coefficients: vec![1, 2, -3, 4],
        baseband_calc_adjust: 1,
        baseband_output_gain: 256,
        noise_coefficients: vec![2, -1],
        noise_divisor: 1,
        noise_squelch: true,
        decimate: 3,
        calibration_window: 6,
    }
}

#[test]
fn frontend_span_runs_the_integer_steps_of_every_sample() {
    let mut history = vec![0x1234_i16, -0x2345, 0x3456, -0x4567];
    let mut decimator = 3_i16;
    let mut window = RssiWindow { power: 0, samples: 0 };
    let codes = [100_i16, -200, 300, -400, 500, -600];
    let span = frontend_span(&codes, &mut history, &span_controls(), &mut decimator, &mut window, 2, 6)
        .expect("valid span");
    assert_eq!(span.baseband, vec![-32_767, -32_767]);
    assert_eq!(span.noise.len(), 6);
    assert_eq!(span.noise[0], 2 * 100 - 0x1234);
    assert!(span.completed_power.is_some());
    assert_eq!(window, RssiWindow { power: 0, samples: 0 });
    assert_eq!(history, [-600, 500, 13_424, -17_767]);
    assert_eq!(decimator, 3);
}

#[test]
fn frontend_span_refuses_malformed_requests_without_change() {
    let mut history = vec![1_i16, 2, 3, 4];
    let mut decimator = 2_i16;
    let mut window = RssiWindow { power: 5, samples: 1 };
    let codes = [7_i16; 4];
    let no_room = frontend_span(&codes, &mut history, &span_controls(), &mut decimator, &mut window, 1, 4);
    assert_eq!(no_room.map(|_| ()), Err(RADIO_INVALID_ARGUMENT));
    let short_gates = frontend_span(&codes, &mut history, &span_controls(), &mut decimator, &mut window, 2, 3);
    assert_eq!(short_gates.map(|_| ()), Err(RADIO_INVALID_ARGUMENT));
    let wide = FrontendControls { decimate: 0x8000_0000, ..span_controls() };
    assert_eq!(frontend_span(&codes, &mut history, &wide, &mut decimator, &mut window, 9, 4).map(|_| ()), Err(RADIO_INVALID_ARGUMENT));
    let overflow = FrontendControls { noise_coefficients: vec![-32_768, -32_768], noise_divisor: -1, ..span_controls() };
    let mut low = vec![-32_768_i16, 0, 0, 0];
    let result = frontend_span(&[-32_768, 0], &mut low, &overflow, &mut decimator, &mut window, 9, 4);
    assert_eq!(result.map(|_| ()), Err(RADIO_INVALID_ARGUMENT));
    assert_eq!(history, [1, 2, 3, 4]);
    assert_eq!(low, [-32_768, 0, 0, 0]);
    assert_eq!(decimator, 2);
    assert_eq!(window, RssiWindow { power: 5, samples: 1 });
}

#[test]
fn frontend_span_accepts_a_decimation_beyond_signed_sixteen_bits() {
    let mut history = vec![0_i16; 2];
    let mut decimator = 1_i16;
    let mut window = RssiWindow { power: 0, samples: 0 };
    let controls = FrontendControls {
        baseband_coefficients: vec![1, 0],
        noise_squelch: false,
        decimate: 70_000,
        ..span_controls()
    };
    let span = frontend_span(&[256, 0], &mut history, &controls, &mut decimator, &mut window, 1, 2).expect("valid");
    assert_eq!(span.baseband, vec![256]);
    assert!(span.noise.is_empty());
    assert_eq!(decimator, (70_000_i32 as i16) - 1);
}

#[test]
fn byte_shift_decimation_and_rssi_window_match_legacy_contract() {
    let mut history = vec![0x1234_i16, -0x2345, 0x3456, -0x4567];
    let mut decimator = 3_i16;
    let mut window = RssiWindow { power: 0, samples: 0 };
    let mut output = Vec::new();
    let mut rssi_updated = false;
    for code in [100_i16, -200, 300, -400, 500, -600] {
        let count = history.len();
        legacy_history_shift(&mut history, count);
        history[0] = code;
        let noise = noise_sample(&history, &[2, -1], 1).expect("representable quotient");
        if accumulate_rssi(&mut window, noise, 6).is_some() {
            rssi_updated = true;
        }
        if let Some(sample) = decimate_step(&mut decimator, &history, &[1, 2, -3, 4], 1, 256, 3) {
            output.push(sample);
        }
    }
    assert_eq!(output, [-32_767, -32_767]);
    assert!(rssi_updated);
    assert_eq!(window, RssiWindow { power: 0, samples: 0 });
    assert_eq!(history, [-600, 500, 13_424, -17_767]);
}

#[test]
fn history_shift_moves_whole_codes_then_splices_one_byte() {
    // A shift count of four moves three bytes: entry one takes its
    // predecessor, entry two keeps its high byte under the low byte of
    // entry one, and the rest is untouched.
    let mut history = vec![0x0102_i16, 0x0304, 0x0506, 0x0708, 0x090a];
    legacy_history_shift(&mut history, 4);
    assert_eq!(history, [0x0102, 0x0102, 0x0504, 0x0708, 0x090a]);
    // A count of five moves four bytes: two whole entries.
    let mut even = vec![0x0102_i16, 0x0304, 0x0506, 0x0708, 0x090a];
    legacy_history_shift(&mut even, 5);
    assert_eq!(even, [0x0102, 0x0102, 0x0304, 0x0708, 0x090a]);
    let mut short = vec![7_i16, 8];
    legacy_history_shift(&mut short, 1);
    assert_eq!(short, [7, 8]);
}

#[test]
fn noise_quotient_truncates_toward_zero_and_reports_overflow() {
    assert_eq!(noise_sample(&[7, 3], &[1, -4], 2), Some(-2));
    assert_eq!(noise_sample(&[-7], &[1], 2), Some(-3));
    assert_eq!(noise_sample(&[5, 5], &[], 3), Some(0));
    // 2 * 32768 * 32768 wraps to i32::MIN; dividing it by -1 overflows.
    let history = [-32_768_i16, -32_768];
    let coefficients = [-32_768_i16, -32_768];
    assert_eq!(noise_sample(&history, &coefficients, -1), None);
    assert_eq!(noise_sample(&history, &coefficients, 1), Some(i32::MIN));
}

#[test]
fn rssi_window_reports_power_when_it_fills() {
    let mut window = RssiWindow { power: 0, samples: 0 };
    assert_eq!(accumulate_rssi(&mut window, 3, 2), None);
    assert_eq!(window, RssiWindow { power: 9, samples: 1 });
    assert_eq!(accumulate_rssi(&mut window, -4, 2), Some(25));
    assert_eq!(window, RssiWindow { power: 0, samples: 0 });
}

#[test]
fn decimation_emits_on_the_expiring_count_with_rails() {
    let mut decimator = 2_i16;
    let history = [100_i16, 200];
    assert_eq!(decimate_step(&mut decimator, &history, &[3, -1], 1, 256, 4), None);
    assert_eq!(decimator, 1);
    assert_eq!(decimate_step(&mut decimator, &history, &[3, -1], 1, 256, 4), Some(100));
    assert_eq!(decimator, 4);
    // Negative normalization truncates toward zero before the Q8 gain.
    let mut phase = 1_i16;
    assert_eq!(decimate_step(&mut phase, &[-7], &[1], 2, 512, 4), Some(-6));
    let mut rail = 1_i16;
    assert_eq!(decimate_step(&mut rail, &[32_767], &[32_767], 1, 256, 4), Some(32_767));
    let mut low = 1_i16;
    assert_eq!(decimate_step(&mut low, &[-32_768], &[1], 1, 256, 4), Some(-32_767));
    assert_eq!(maximum_baseband_output_count(7, 3), 3);
}
