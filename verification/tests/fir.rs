use lib::fir::{process_code, process_codes, Controls};
use lib::RADIO_INVALID_ARGUMENT;

#[test]
fn each_safe_core_precondition_rejects_before_mutation() {
    let controls = Controls { nx: 2, input_gain: 256, output_gain: 256, calc_adjust: 1 };
    for field in 0..4 {
        let mut controls = controls;
        let history = [7_i16, 8];
        let coefficients = [1_i16, 1];
        if field == 0 {
            controls.nx = 0;
        }
        if field == 3 {
            controls.calc_adjust = 0;
        }
        let history_len = if field == 1 { 1 } else { 2 };
        let coefficient_len = if field == 2 { 1 } else { 2 };
        let mut active_history = history[..history_len].to_vec();
        assert_eq!(
            process_code(1, &mut active_history, &coefficients[..coefficient_len], controls),
            Err(RADIO_INVALID_ARGUMENT)
        );
        let mut output = vec![9_i16];
        assert_eq!(
            process_codes(&[0], &mut output, &mut active_history, &coefficients[..coefficient_len], controls),
            Err(RADIO_INVALID_ARGUMENT)
        );
        assert_eq!(active_history, history[..history_len].to_vec());
        assert_eq!(output, [9]);
    }
    let mut history = vec![7_i16, 8];
    let mut output = vec![9_i16];
    assert_eq!(process_codes(&[], &mut output, &mut history, &[1, 1], controls), Err(RADIO_INVALID_ARGUMENT));
    assert_eq!(history, [7, 8]);
    assert_eq!(output, [9]);
}

fn run(
    input: &[i16],
    coefficients: &[i16],
    input_gain: i32,
    output_gain: i32,
    calc_adjust: i32,
    history: &mut Vec<i16>,
) -> Vec<i16> {
    let mut output = vec![0_i16; input.len()];
    let controls = Controls { nx: history.len(), input_gain, output_gain, calc_adjust };
    process_codes(input, &mut output, history, coefficients, controls).expect("valid FIR PCM");
    output
}

#[test]
fn fixed_point_history_and_gain_vector_matches_legacy_rules() {
    let mut history = vec![1200_i16, -700, 300];
    let output = run(&[-32_768, -1234, 0, 2345, 32_767], &[10_000, -5000, 3000], 300, 280, 10_000, &mut history);
    assert_eq!(output, [28794, -16027, 9693, 2530, -31185]);
    assert_eq!(history, [-27138, 2748, 0]);
}

#[test]
fn fir_every_partition_matches_one_complete_span() {
    let input = [-32_768, -1234, 0, 2345, 32_767, -17, 99];
    let coefficients = [10_000, -5000, 3000];
    let initial_history = vec![1200_i16, -700, 300];
    let mut whole_history = initial_history.clone();
    let whole = run(&input, &coefficients, 300, 280, 10_000, &mut whole_history);

    for split in 1..input.len() {
        let mut history = initial_history.clone();
        let mut output = run(&input[..split], &coefficients, 300, 280, 10_000, &mut history);
        output.extend(run(&input[split..], &coefficients, 300, 280, 10_000, &mut history));
        assert_eq!(output, whole, "split {split}");
        assert_eq!(history, whole_history, "split {split}");
    }
}

#[test]
fn both_legacy_rails_are_asymmetric() {
    let mut high_history = vec![0_i16];
    assert_eq!(run(&[32_767], &[32_767], 256, 256, 1, &mut high_history), [32_767]);

    let mut low_history = vec![0_i16];
    assert_eq!(run(&[-32_768], &[32_767], 256, 256, 1, &mut low_history), [-32_767]);
}

#[test]
fn nx_selects_active_history_and_taps_not_coefficient_storage_length() {
    let input = [100_i16, -50];
    let mut output = vec![0_i16; 2];
    let mut history = vec![11_i16, 22, 33, 44];
    let coefficients = [2_i16, 3, 1_000, 2_000];

    process_codes(
        &input,
        &mut output,
        &mut history,
        &coefficients,
        Controls { nx: 2, input_gain: 256, output_gain: 256, calc_adjust: 1 },
    )
    .expect("bounded nx FIR");

    assert_eq!(output, [233, 200]);
    assert_eq!(history, [-50, 100, 33, 44]);
}

#[test]
fn zero_span_and_invalid_input_preserve_history_and_output() {
    let mut history = vec![17_i16, -3];
    let original_history = history.clone();
    let mut output: Vec<i16> = Vec::new();
    let controls = Controls { nx: 2, input_gain: 256, output_gain: 256, calc_adjust: 1 };
    process_codes(&[], &mut output, &mut history, &[1, 2], controls).expect("zero span is a no-op");
    assert_eq!(history, original_history);
    let mut short_output = vec![5_i16];
    assert!(process_codes(&[1, 2], &mut short_output, &mut history, &[1, 2], controls).is_err());
    assert_eq!(history, original_history);
    assert_eq!(short_output, [5]);
}

#[test]
fn negative_normalization_divisor_truncates_toward_zero() {
    let mut history = vec![0_i16];
    // 7 * 1 / -2 truncates to -3, then unity Q8 gains keep it.
    assert_eq!(run(&[7], &[1], 256, 256, -2, &mut history), [-3]);
}
