use lib::center_slicer::{process, process_with_trace, State};

fn run(input: &[i16], limit: i32, setpoint: i16, decay_factor: i32, state: &mut State) -> (Vec<i16>, Vec<i16>) {
    let mut centered = vec![0_i16; input.len()];
    let mut limited = vec![0_i16; input.len()];
    process(input, &mut centered, &mut limited, limit, setpoint, decay_factor, state);
    (centered, limited)
}

#[test]
fn trace_validation_and_alternating_extrema_remain_bounded() {
    let input = [0_i16; 16];
    let mut centered = vec![9_i16; 16];
    let mut limited = vec![9_i16; 16];
    let mut state = State::default();
    let mut phase = 0;
    let mut trace = vec![9_i16; 16];
    process_with_trace(&input, &mut centered, &mut limited, 10, 10, 1, &mut state, true, &mut trace, &mut phase);
    assert_eq!(phase, 16);
    assert_eq!(trace, [0; 16]);
    assert_eq!(centered, [0; 16]);
}

#[test]
fn trace_alternates_lower_and_upper_extrema_every_eight_samples() {
    let input = [1_000_i16; 16];
    let mut centered = vec![0_i16; 16];
    let mut limited = vec![0_i16; 16];
    let mut state = State::default();
    let mut phase = 4;
    let mut trace = vec![0_i16; 16];
    process_with_trace(&input, &mut centered, &mut limited, 100, 500, 1, &mut state, true, &mut trace, &mut phase);
    assert_eq!(phase, 20);
    // Phases 4..8 report the minimum, 8..16 the maximum, 16..20 the minimum.
    assert!(trace[..4].iter().all(|value| *value < 1_000));
    assert!(trace[4..12].iter().all(|value| *value >= 990));
    assert!(trace[12..].iter().all(|value| *value < 1_000));
}

#[test]
fn rails_center_and_limit_match_legacy_fixed_point_steps() {
    let mut state = State { maximum: 0, minimum: 0, peak: 777, upper_decay_counter: 123, lower_decay_counter: -456 };
    let (centered, limited) = run(
        &[i16::MIN, i16::MAX, -2_000, 2_000, -1, 1, 0, i16::MIN, i16::MAX, 123, -123],
        100,
        1_000,
        1,
        &mut state,
    );

    assert_eq!(centered, [-500, 500, -500, 500, -500, -498, -498, -500, 500, -500, -500]);
    assert_eq!(limited, [-100, 100, -100, 100, -100, -100, -100, -100, 100, -100, -100]);
    assert_eq!(
        state,
        State { maximum: 876, minimum: -122, peak: 499, upper_decay_counter: 123, lower_decay_counter: -456 }
    );
}

#[test]
fn center_slicer_every_split_boundary_matches_one_complete_span() {
    let input = [i16::MIN, i16::MAX, -2_000, 2_000, -1, 1, 0, i16::MIN, i16::MAX, 123, -123];
    let initial = State { maximum: 0, minimum: 0, peak: 777, upper_decay_counter: 123, lower_decay_counter: -456 };
    let mut whole_state = initial;
    let (whole_centered, whole_limited) = run(&input, 100, 1_000, 1, &mut whole_state);

    for split in 1..input.len() {
        let mut state = initial;
        let (mut centered, mut limited) = run(&input[..split], 100, 1_000, 1, &mut state);
        let (second_centered, second_limited) = run(&input[split..], 100, 1_000, 1, &mut state);

        centered.extend(second_centered);
        limited.extend(second_limited);
        assert_eq!(centered, whole_centered, "centered split {split}");
        assert_eq!(limited, whole_limited, "limited split {split}");
        assert_eq!(state, whole_state, "state split {split}");
    }
}

#[test]
fn preserved_counters_and_zero_span_do_not_change_state() {
    let mut state = State { maximum: 200, minimum: -100, peak: 150, upper_decay_counter: 37, lower_decay_counter: -19 };
    let expected = state;
    let (centered, limited) = run(&[], 50, 400, 3, &mut state);
    assert!(centered.is_empty() && limited.is_empty());
    assert_eq!(state, expected);

    let (_, _) = run(&[100, -100], 50, 400, 3, &mut state);
    assert_eq!(state.upper_decay_counter, 37);
    assert_eq!(state.lower_decay_counter, -19);
}

#[test]
fn signed_division_and_negative_limit_match_legacy_branches() {
    let mut state = State { maximum: -5, minimum: -6, peak: 999, upper_decay_counter: 3, lower_decay_counter: -4 };
    let (centered, limited) = run(&[-5, -6], 100, 100, 0, &mut state);

    assert_eq!(centered, [0, -1]);
    assert_eq!(limited, [0, -1]);
    assert_eq!(state.maximum, -5);
    assert_eq!(state.minimum, -6);
    assert_eq!(state.peak, 0);

    state = State::default();
    let (centered, limited) = run(&[10, -10], -2, 1_000, 0, &mut state);
    assert_eq!(centered, [5, -10]);
    assert_eq!(limited, [-2, 2]);
}
