use lib::signal_mode::{
    advance, SignalModeConfig, SignalModeInput, SignalModeState, CTCSS_NONE, MODE_CTCSS, MODE_DCS, MODE_NONE, TONE_COUNT,
};
use lib::{RADIO_INVALID_ARGUMENT, RADIO_OK};

fn radio_signal_mode_advance(config: &SignalModeConfig, input: &SignalModeInput, state: &mut SignalModeState) -> i32 {
    match advance(config, input, state) {
        Ok(()) => RADIO_OK,
        Err(code) => code,
    }
}

fn config() -> SignalModeConfig {
    let mut config = SignalModeConfig::disabled();

    config.hold_ms = 25;
    config.ctcss_tx_enabled = 1;
    config.default_tx_ctcss_frequency_tenths_hz = -10;
    config.mapped_tx_ctcss_frequency_tenths_hz[4] = 1_000;
    config
}

fn input(
    decoded_ctcss: i32,
    dcs_valid: u32,
    tx_ptt_in: u32,
    elapsed_ms: i32,
) -> SignalModeInput {
    SignalModeInput {
        elapsed_ms,
        decoded_ctcss,
        dcs_valid,
        tx_ptt_in,
    }
}

#[test]
fn ctcss_acquire_refresh_expiry_and_default_selection_match_legacy_order() {
    let config = config();
    let mut state = SignalModeState::default();

    assert_eq!(
        radio_signal_mode_advance(&config, &input(4, 0, 0, 0), &mut state),
        RADIO_OK
    );
    assert_eq!(state.smode, MODE_CTCSS);
    assert_eq!(state.smode_was, MODE_CTCSS);
    assert_eq!(state.smode_timer_ms, 25);
    assert_eq!(state.last_rx_ctcss, 4);
    assert_eq!(state.tx_ctcss_frequency_tenths_hz, 1_000);
    assert_eq!(state.tx_ctcss_option, 1);

    state.tx_ctcss_option = 0;
    assert_eq!(
        radio_signal_mode_advance(&config, &input(4, 0, 0, 10), &mut state),
        RADIO_OK
    );
    assert_eq!(state.smode_timer_ms, 25);
    assert_eq!(state.tx_ctcss_option, 0);

    assert_eq!(
        radio_signal_mode_advance(&config, &input(CTCSS_NONE, 0, 0, 25), &mut state),
        RADIO_OK
    );
    assert_eq!(state.smode, MODE_NONE);
    assert_eq!(state.smode_was, MODE_CTCSS);
    assert_eq!(state.smode_turnoff, 1);
    assert_eq!(state.last_rx_ctcss, CTCSS_NONE);

    state.smode = MODE_CTCSS;
    state.last_rx_ctcss = 4;
    assert_eq!(
        radio_signal_mode_advance(&config, &input(CTCSS_NONE, 0, 0, 0), &mut state),
        RADIO_OK
    );
    assert_eq!(state.tx_ctcss_frequency_tenths_hz, -10);
    assert_eq!(state.tx_ctcss_option, 1);
}

#[test]
fn receive_only_mapping_does_not_request_a_transmit_tone() {
    let mut config = config();
    let mut state = SignalModeState::default();

    config.mapped_tx_ctcss_frequency_tenths_hz[4] = 0;
    state.tx_ctcss_frequency_tenths_hz = 777;
    state.tx_ctcss_option = 2;
    assert_eq!(
        radio_signal_mode_advance(&config, &input(4, 0, 0, 0), &mut state),
        RADIO_OK
    );
    assert_eq!(state.smode, MODE_CTCSS);
    assert_eq!(state.last_rx_ctcss, 4);
    assert_eq!(state.tx_ctcss_frequency_tenths_hz, 777);
    assert_eq!(state.tx_ctcss_option, 2);
}

#[test]
fn dcs_only_claims_an_idle_or_dcs_mode_after_ctcss_considers_the_same_snapshot() {
    let config = config();
    let mut state = SignalModeState::default();

    assert_eq!(
        radio_signal_mode_advance(&config, &input(4, 1, 0, 0), &mut state),
        RADIO_OK
    );
    assert_eq!(state.smode, MODE_CTCSS);

    state = SignalModeState::default();
    assert_eq!(
        radio_signal_mode_advance(&config, &input(CTCSS_NONE, 1, 0, 0), &mut state),
        RADIO_OK
    );
    assert_eq!(state.smode, MODE_DCS);
    assert_eq!(state.smode_was, MODE_DCS);
    assert_eq!(state.smode_timer_ms, 25);
}

#[test]
fn ptt_freezes_the_mode_timer_without_clearing_a_sticky_turnoff() {
    let config = config();
    let mut state = SignalModeState {
        smode: MODE_CTCSS,
        smode_was: MODE_CTCSS,
        smode_timer_ms: 7,
        smode_turnoff: 1,
        ..SignalModeState::default()
    };

    assert_eq!(
        radio_signal_mode_advance(&config, &input(CTCSS_NONE, 0, 1, 100), &mut state),
        RADIO_OK
    );
    assert_eq!(state.smode_timer_ms, 7);
    assert_eq!(state.smode_turnoff, 1);
}

#[test]
fn partitioned_elapsed_time_reaches_the_same_mode_state() {
    let config = config();
    let mut whole = SignalModeState {
        smode: MODE_CTCSS,
        smode_was: MODE_CTCSS,
        smode_timer_ms: 20,
        ..SignalModeState::default()
    };
    let mut partitioned = whole;

    assert_eq!(
        radio_signal_mode_advance(&config, &input(CTCSS_NONE, 0, 0, 20), &mut whole),
        RADIO_OK
    );
    for elapsed_ms in [1, 7, 12] {
        assert_eq!(
            radio_signal_mode_advance(
                &config,
                &input(CTCSS_NONE, 0, 0, elapsed_ms),
                &mut partitioned,
            ),
            RADIO_OK
        );
    }
    assert_eq!(partitioned.smode, whole.smode);
    assert_eq!(partitioned.smode_was, whole.smode_was);
    assert_eq!(partitioned.smode_timer_ms, whole.smode_timer_ms);
    assert_eq!(partitioned.smode_turnoff, whole.smode_turnoff);
}

#[test]
fn invalid_configuration_or_snapshot_keeps_caller_state_unchanged() {
    let mut invalid_config = config();
    let valid_input = input(4, 0, 0, 0);
    let initial = SignalModeState {
        smode: MODE_DCS,
        smode_was: MODE_DCS,
        smode_timer_ms: 19,
        last_rx_ctcss: 3,
        tx_ctcss_frequency_tenths_hz: 670,
        tx_ctcss_option: 2,
        smode_turnoff: 1,
    };
    let mut state = initial;

    invalid_config.ctcss_tx_enabled = 2;
    assert_eq!(
        radio_signal_mode_advance(&invalid_config, &valid_input, &mut state),
        RADIO_INVALID_ARGUMENT
    );
    assert_eq!(state.smode, initial.smode);
    assert_eq!(state.smode_was, initial.smode_was);
    assert_eq!(state.smode_timer_ms, initial.smode_timer_ms);
    assert_eq!(state.last_rx_ctcss, initial.last_rx_ctcss);
    assert_eq!(
        state.tx_ctcss_frequency_tenths_hz,
        initial.tx_ctcss_frequency_tenths_hz
    );
    assert_eq!(state.tx_ctcss_option, initial.tx_ctcss_option);
    assert_eq!(state.smode_turnoff, initial.smode_turnoff);

    invalid_config = config();
    assert_eq!(
        radio_signal_mode_advance(
            &invalid_config,
            &input(TONE_COUNT as i32, 0, 0, 0),
            &mut state,
        ),
        RADIO_INVALID_ARGUMENT
    );
    assert_eq!(state.smode, initial.smode);
    assert_eq!(state.smode_timer_ms, initial.smode_timer_ms);
}

#[test]
fn ffi_rejects_null_and_each_invalid_input_without_committing_state() {
    let mut candidate = config();
    let valid_input = input(4, 0, 0, 0);
    let initial = SignalModeState {
        smode: MODE_DCS,
        smode_was: MODE_DCS,
        smode_timer_ms: 19,
        last_rx_ctcss: 3,
        tx_ctcss_frequency_tenths_hz: 670,
        tx_ctcss_option: 2,
        smode_turnoff: 1,
    };
    let mut state = initial;

    assert_eq!(state, initial);

    candidate.struct_size = 0;
    assert_eq!(
        radio_signal_mode_advance(&candidate, &valid_input, &mut state),
        RADIO_INVALID_ARGUMENT
    );
    assert_eq!(state, initial);

    candidate = config();
    candidate.mapped_tx_ctcss_frequency_tenths_hz[0] = -1;
    assert_eq!(
        radio_signal_mode_advance(&candidate, &valid_input, &mut state),
        RADIO_INVALID_ARGUMENT
    );
    assert_eq!(state, initial);

    for invalid_input in [
        input(4, 2, 0, 0),
        input(4, 0, 2, 0),
        input(CTCSS_NONE - 1, 0, 0, 0),
        input(TONE_COUNT as i32, 0, 0, 0),
    ] {
        assert_eq!(
            radio_signal_mode_advance(&config(), &invalid_input, &mut state),
            RADIO_INVALID_ARGUMENT
        );
        assert_eq!(state, initial);
    }
}

#[test]
fn resolver_preserves_nonparticipating_legacy_modes() {
    let config = config();

    for mode in [1, 4, 5, 8] {
        let mut state = SignalModeState {
            smode: mode,
            smode_was: mode,
            smode_timer_ms: 25,
            last_rx_ctcss: 4,
            ..SignalModeState::default()
        };

        assert_eq!(
            radio_signal_mode_advance(&config, &input(4, 1, 0, 0), &mut state),
            RADIO_OK
        );
        assert_eq!(state.smode, mode);
        assert_eq!(state.smode_was, mode);
        assert_eq!(state.smode_timer_ms, 25);
        assert_eq!(state.last_rx_ctcss, CTCSS_NONE);
    }
}
