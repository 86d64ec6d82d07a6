use lib::deemphasis_integrator::{process, Controls, State};

fn run(input: &[i16], output_coefficient: i16, feedback_coefficient: i16, output_gain: i32, state: &mut State) -> Vec<i16> {
    let mut output = vec![0_i16; input.len()];
    process(input, &mut output, Controls { output_coefficient, feedback_coefficient, output_gain }, state);
    output
}

#[test]
fn deployed_coefficients_match_fixed_point_reference_vector() {
    let mut state = State { accumulator: -12_345 };
    let output = run(&[0, 20_000, -10_000, 32_767, -32_768, 1_000, -1], 6_878, 25_889, 256, &mut state);

    assert_eq!(output, [-8188, 10322, -240, 27321, -5926, -3842, -3036]);
    assert_eq!(state.accumulator, -3617);
}

#[test]
fn division_wrapping_and_i16_narrowing_match_legacy_rules() {
    let mut signed = State { accumulator: -17 };
    assert_eq!(run(&[-1, 1, -32_768, 32_767], -6_878, 25_889, -257, &mut signed), [-11, -8, -27624, 5792]);
    assert_eq!(signed.accumulator, 6873);

    let mut wrapped = State { accumulator: i32::MAX };
    assert_eq!(run(&[32_767, -32_768, 12_345], 32_767, -32_768, i32::MAX, &mut wrapped), [-511, 1023, 832]);
    assert_eq!(wrapped.accumulator, -53_191);
}

#[test]
fn deemphasis_integrator_every_partition_matches_one_complete_span() {
    let input = [0, 20_000, -10_000, 32_767, -32_768, 1_000, -1];
    let initial = State { accumulator: -12_345 };
    let mut whole_state = initial;
    let whole = run(&input, 6_878, 25_889, 256, &mut whole_state);

    for split in 1..input.len() {
        let mut state = initial;
        let mut output = run(&input[..split], 6_878, 25_889, 256, &mut state);
        output.extend(run(&input[split..], 6_878, 25_889, 256, &mut state));
        assert_eq!(output, whole, "split {split}");
        assert_eq!(state, whole_state, "split {split}");
    }
}

#[test]
fn zero_span_and_invalid_f32_do_not_change_state_or_output() {
    let mut state = State { accumulator: 123 };
    let before = state;
    let output = run(&[], 6_878, 25_889, 256, &mut state);
    assert!(output.is_empty());
    assert_eq!(state, before);
}
