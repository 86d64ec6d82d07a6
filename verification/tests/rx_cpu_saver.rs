use lib::rx_cpu_saver::{advance, RxCpuSaverInput, RxCpuSaverState, ACTION_ENTER, ACTION_LEAVE, ACTION_NONE};
use lib::{RADIO_INVALID_ARGUMENT, RADIO_OK};

fn radio_rx_cpu_saver_advance(input: &RxCpuSaverInput, state: &mut RxCpuSaverState) -> i32 {
    match advance(input, state) {
        Ok(()) => RADIO_OK,
        Err(code) => code,
    }
}

#[test]
fn each_invalid_boolean_preserves_the_halt_state() {
    for field in 0..5 {
        let mut input = RxCpuSaverInput::default();
        let fields = [
            &mut input.enabled,
            &mut input.carrier_detect,
            &mut input.signal_mode_null,
            &mut input.tx_ptt_in,
            &mut input.tx_ptt_out,
        ];
        *fields[field] = 2;
        let initial = RxCpuSaverState { halted: 1, action: ACTION_ENTER };
        let mut state = initial;
        assert_eq!(advance(&input, &mut state), Err(RADIO_INVALID_ARGUMENT));
        assert_eq!(state, initial);
    }
}

#[test]
fn every_boolean_snapshot_preserves_the_legacy_transition() {
    for enabled in 0..=1 {
        for carrier_detect in 0..=1 {
            for signal_mode_null in 0..=1 {
                for tx_ptt_in in 0..=1 {
                    for tx_ptt_out in 0..=1 {
                        for prior_halted in 0..=1 {
                            let input = RxCpuSaverInput { enabled, carrier_detect, signal_mode_null, tx_ptt_in, tx_ptt_out };
                            let mut state = RxCpuSaverState { halted: prior_halted, action: u32::MAX };
                            let expected_halted = u32::from(
                                enabled != 0 && carrier_detect == 0 && signal_mode_null != 0 && tx_ptt_in == 0
                                    && tx_ptt_out == 0,
                            );
                            let expected_action = if expected_halted == prior_halted {
                                ACTION_NONE
                            } else if expected_halted != 0 {
                                ACTION_ENTER
                            } else {
                                ACTION_LEAVE
                            };
                            assert_eq!(radio_rx_cpu_saver_advance(&input, &mut state), RADIO_OK);
                            assert_eq!(state.halted, expected_halted);
                            assert_eq!(state.action, expected_action);
                        }
                    }
                }
            }
        }
    }
}

#[test]
fn invalid_or_null_arguments_do_not_commit_state() {
    let invalid = RxCpuSaverInput { enabled: 2, carrier_detect: 0, signal_mode_null: 1, tx_ptt_in: 0, tx_ptt_out: 0 };
    let initial = RxCpuSaverState { halted: 1, action: ACTION_ENTER };
    let mut state = initial;

    assert_eq!(radio_rx_cpu_saver_advance(&invalid, &mut state), RADIO_INVALID_ARGUMENT);
    assert_eq!(state, initial);

    state.halted = 2;
    assert_eq!(
        radio_rx_cpu_saver_advance(
            &RxCpuSaverInput { enabled: 1, carrier_detect: 0, signal_mode_null: 1, tx_ptt_in: 0, tx_ptt_out: 0 },
            &mut state,
        ),
        RADIO_INVALID_ARGUMENT
    );
    assert_eq!(state.halted, 2);
}
