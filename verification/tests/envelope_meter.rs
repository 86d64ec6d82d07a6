use lib::envelope_meter::{measure, State};

#[test]
fn decaying_envelope_matches_legacy_integer_steps() {
    let input = [100_i16, -100, 0, 0];
    let mut output = vec![0_i16; 4];
    let mut state = State::default();

    assert!(!measure(&input, &mut output, true, 1, 100, &mut state));
    assert_eq!(output, [50, 99, 98, 97]);
    assert_eq!(
        state,
        State { maximum: 97, minimum: -98, peak: 97, upper_decay_counter: 1, lower_decay_counter: 1 }
    );
}

#[test]
fn partitioning_and_rails_preserve_the_same_state_and_output() {
    let input = [i16::MIN, i16::MAX, 0, -500, 500, 0, -1, 1];
    let mut whole_output = vec![0_i16; 8];
    let mut whole = State::default();
    let mut split = State::default();

    let whole_result = measure(&input, &mut whole_output, true, 3, 1, &mut whole);
    let mut first_output = vec![0_i16; 3];
    let first_result = measure(&input[..3], &mut first_output, true, 3, 1, &mut split);
    let mut second_output = vec![0_i16; 5];
    let second_result = measure(&input[3..], &mut second_output, true, 3, 1, &mut split);
    let mut split_output = first_output;
    split_output.extend(second_output);

    assert_eq!(whole_output, split_output);
    assert_eq!(whole, split);
    assert_eq!(whole_result, second_result);
    assert!(first_result);
}

#[test]
fn empty_span_reports_a_zero_peak_and_output_is_optional() {
    let mut state = State { maximum: 123, minimum: -456, peak: 289, upper_decay_counter: 4, lower_decay_counter: 5 };
    let mut untouched = vec![7_i16; 2];
    assert!(measure(&[], &mut untouched, false, 1, 0, &mut state));
    assert_eq!(state.peak, 0);
    assert_eq!(untouched, [7, 7]);
    assert!(!measure(&[1, 2], &mut untouched, false, 1, 1_000, &mut state));
    assert_eq!(untouched, [7, 7]);
}
