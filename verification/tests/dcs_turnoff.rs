use lib::dcs_turnoff::{advance, DcsTurnoffConfig, DcsTurnoffInput, DcsTurnoffState, STATE_ACTIVE, STATE_TOC};
use lib::{RADIO_INVALID_ARGUMENT, RADIO_OK};

fn radio_dcs_turnoff_advance(config: &DcsTurnoffConfig, input: &DcsTurnoffInput, state: &mut DcsTurnoffState) -> i32 {
    match advance(config, input, state) {
        Ok(()) => RADIO_OK,
        Err(code) => code,
    }
}

fn config() -> DcsTurnoffConfig {
    DcsTurnoffConfig {
        turnoff_duration_ms: 180,
    }
}

fn input(elapsed_ms: i32, tx_ptt_in: u32, begin_turnoff: u32) -> DcsTurnoffInput {
    DcsTurnoffInput {
        elapsed_ms,
        tx_ptt_in,
        begin_turnoff,
    }
}

#[test]
fn entry_clears_hang_and_consumes_the_current_callback() {
    let mut state = DcsTurnoffState {
        tx_state: STATE_ACTIVE,
        dcs_turnoff_remaining_ms: 9,
        tx_hang_remaining_ms: 42,
        finish_requested: 99,
        finish_elapsed_ms: 77,
    };

    assert_eq!(
        radio_dcs_turnoff_advance(&config(), &input(20, 0, 1), &mut state),
        RADIO_OK
    );
    assert_eq!(state.tx_state, STATE_TOC);
    assert_eq!(state.dcs_turnoff_remaining_ms, 160);
    assert_eq!(state.tx_hang_remaining_ms, 0);
    assert_eq!(state.finish_requested, 0);
    assert_eq!(state.finish_elapsed_ms, 0);
}

#[test]
fn rekey_cancels_an_obsolete_dcs_tail_without_touching_hang() {
    let mut state = DcsTurnoffState {
        tx_state: STATE_TOC,
        dcs_turnoff_remaining_ms: 160,
        tx_hang_remaining_ms: 13,
        ..DcsTurnoffState::default()
    };

    assert_eq!(
        radio_dcs_turnoff_advance(&config(), &input(20, 1, 0), &mut state),
        RADIO_OK
    );
    assert_eq!(state.tx_state, STATE_ACTIVE);
    assert_eq!(state.dcs_turnoff_remaining_ms, 0);
    assert_eq!(state.tx_hang_remaining_ms, 13);
    assert_eq!(state.finish_requested, 0);
}

#[test]
fn expiry_reports_the_residual_for_the_retained_finishing_helper() {
    let mut state = DcsTurnoffState {
        tx_state: STATE_TOC,
        dcs_turnoff_remaining_ms: 15,
        ..DcsTurnoffState::default()
    };

    assert_eq!(
        radio_dcs_turnoff_advance(&config(), &input(20, 0, 0), &mut state),
        RADIO_OK
    );
    assert_eq!(state.tx_state, STATE_TOC);
    assert_eq!(state.dcs_turnoff_remaining_ms, 0);
    assert_eq!(state.finish_requested, 1);
    assert_eq!(state.finish_elapsed_ms, 5);
}

#[test]
fn callback_partitions_preserve_the_dcs_tail_deadline() {
    let mut whole = DcsTurnoffState {
        tx_state: STATE_ACTIVE,
        ..DcsTurnoffState::default()
    };
    let mut split = whole;

    assert_eq!(
        radio_dcs_turnoff_advance(&config(), &input(40, 0, 1), &mut whole),
        RADIO_OK
    );
    assert_eq!(
        radio_dcs_turnoff_advance(&config(), &input(20, 0, 1), &mut split),
        RADIO_OK
    );
    assert_eq!(
        radio_dcs_turnoff_advance(&config(), &input(20, 0, 0), &mut split),
        RADIO_OK
    );
    assert_eq!(whole, split);
    assert_eq!(whole.dcs_turnoff_remaining_ms, 140);
}

#[test]
fn invalid_snapshots_are_transactional() {
    let invalid_input = input(20, 2, 1);
    let zero_duration = DcsTurnoffConfig {
        turnoff_duration_ms: 0,
    };
    let before = DcsTurnoffState {
        tx_state: STATE_ACTIVE,
        dcs_turnoff_remaining_ms: 7,
        tx_hang_remaining_ms: 8,
        finish_requested: 1,
        finish_elapsed_ms: 9,
    };
    let mut state = before;

    assert_eq!(
        radio_dcs_turnoff_advance(&config(), &invalid_input, &mut state),
        RADIO_INVALID_ARGUMENT
    );
    assert_eq!(state, before);
    assert_eq!(
        radio_dcs_turnoff_advance(&zero_duration, &input(20, 0, 1), &mut state),
        RADIO_INVALID_ARGUMENT
    );
    assert_eq!(state, before);
    assert_eq!(state, before);
}
