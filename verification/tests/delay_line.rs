use lib::delay_line::{process, State};
use lib::RADIO_INVALID_ARGUMENT;

#[test]
fn invalid_storage_and_pcm_spans_fail_transactionally() {
    for case in 0..2 {
        let input = [1.0_f32];
        let mut output = vec![9.0_f32];
        let mut storage = if case == 0 { Vec::new() } else { vec![3.0_f32] };
        let original_storage = storage.clone();
        let mut state = State { input_index: 0, dirty: 1 };
        let lead = if case == 1 { 2 } else { 0 };
        assert_eq!(
            process(&input, &mut output, &mut storage, lead, &mut state, true, false, 0.0),
            Err(RADIO_INVALID_ARGUMENT),
            "case {case}"
        );
        assert_eq!(state, State { input_index: 0, dirty: 1 });
        assert_eq!(output, [9.0]);
        assert_eq!(storage, original_storage);
    }
}

#[test]
fn empty_active_and_dirty_reset_spans_accept_absent_pcm() {
    for enabled in [true, false] {
        let mut storage = vec![3.0_f32];
        let mut output: Vec<f32> = Vec::new();
        let mut state = State { input_index: 0, dirty: 1 };
        assert_eq!(process(&[], &mut output, &mut storage, 0, &mut state, enabled, false, 0.0), Ok(()));
        assert_eq!(storage, [if enabled { 3.0 } else { 0.0 }]);
        assert_eq!(state.dirty, u32::from(enabled));
    }
}

fn run(input: &[f32], storage: &mut Vec<f32>, lead: u32, state: &mut State) -> Vec<f32> {
    let mut output = vec![0.0; input.len()];
    process(input, &mut output, storage, lead, state, true, false, 0.0).expect("valid delay line");
    output
}

#[test]
fn wrap_and_lead_match_legacy_sample_order() {
    let input = [10.0, 20.0, 30.0, 40.0, 50.0, 60.0, 70.0, 80.0];
    let mut storage = vec![0.0; 5];
    let mut state = State::default();

    assert_eq!(run(&input, &mut storage, 3, &mut state), [0.0, 0.0, 0.0, 10.0, 20.0, 30.0, 40.0, 50.0]);
    assert_eq!(storage, [60.0, 70.0, 80.0, 40.0, 50.0]);
    assert_eq!(state, State { input_index: 3, dirty: 1 });
}

#[test]
fn delay_line_every_split_boundary_matches_one_complete_span() {
    let input = [10.0, -20.0, 30.0, -40.0, 50.0, -60.0, 70.0, -80.0];
    let mut whole_storage = vec![0.0; 5];
    let mut whole_state = State::default();
    let whole_output = run(&input, &mut whole_storage, 3, &mut whole_state);

    for split in 1..input.len() {
        let mut storage = vec![0.0; 5];
        let mut state = State::default();
        let mut output = run(&input[..split], &mut storage, 3, &mut state);

        output.extend(run(&input[split..], &mut storage, 3, &mut state));
        assert_eq!(output, whole_output, "split {split}");
        assert_eq!(storage, whole_storage, "split {split}");
        assert_eq!(state, whole_state, "split {split}");
    }
}

#[test]
fn above_capacity_cursor_normalizes_at_the_first_sample_like_legacy_c() {
    let input = [10.0, 20.0, 30.0];
    let mut storage = vec![1.0, 2.0, 3.0, 4.0, 5.0];
    let mut state = State { input_index: 7, dirty: 1 };

    assert_eq!(run(&input, &mut storage, 3, &mut state), [5.0, 1.0, 2.0]);
    assert_eq!(storage, [1.0, 2.0, 10.0, 20.0, 30.0]);
    assert_eq!(state, State { input_index: 5, dirty: 1 });
}

#[test]
fn disabled_and_outzero_retain_dirty_reset_behavior() {
    let mut storage = vec![1.0_f32, 2.0, 3.0, 4.0];
    let mut output = vec![99.0_f32, 99.0];
    let mut state = State { input_index: 3, dirty: 1 };

    process(&[], &mut output, &mut storage, 2, &mut state, false, false, 0.0).expect("dirty disabled reset");
    assert_eq!(storage, [0.0; 4]);
    assert_eq!(output, [0.0; 2]);
    assert_eq!(state, State::default());

    output = vec![99.0, 99.0];
    process(&[], &mut output, &mut storage, 2, &mut state, false, false, 0.0).expect("clean disabled no-op");
    assert_eq!(output, [99.0; 2]);

    process(&[], &mut output, &mut storage, 2, &mut state, true, true, 0.0).expect("clean outzero no-op");
    assert_eq!(output, [99.0; 2]);

    storage = vec![4.0, 3.0, 2.0, 1.0];
    output = vec![99.0, 99.0];
    state = State { input_index: 2, dirty: 1 };
    process(&[], &mut output, &mut storage, 2, &mut state, true, true, 0.0).expect("dirty outzero reset");
    assert_eq!(storage, [0.0; 4]);
    assert_eq!(output, [0.0; 2]);
    assert_eq!(state, State::default());
}

#[test]
fn full_storage_lead_passes_the_input_through() {
    let mut storage = vec![7_i16, 8, 9];
    let mut state = State::default();
    let mut output = vec![0_i16; 4];
    process(&[1, 2, 3, 4], &mut output, &mut storage, 3, &mut state, true, false, 0).unwrap();
    assert_eq!(output, [1, 2, 3, 4]);
    assert_eq!(storage, [4, 2, 3]);
}
