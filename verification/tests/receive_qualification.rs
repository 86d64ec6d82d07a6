use lib::receive_qualification::{
    advance, CarrierSource, Config, Inputs, Output, SignalMode, State, SubaudibleSource, MAX_TX_OFF_DELAY_FRAMES,
    QUALIFICATION_INTERVAL_FRAMES,
};

fn active_inputs() -> Inputs {
    Inputs {
        hardware_carrier: true,
        parallel_carrier: true,
        dsp_carrier: true,
        hardware_subaudible: true,
        parallel_subaudible: true,
        ctcss_receive_enabled: false,
        ..Inputs::default()
    }
}

fn enabled_config() -> Config {
    Config {
        carrier_source: CarrierSource::Hardware,
        subaudible_source: SubaudibleSource::Ignore,
        radio_duplex: true,
        ..Config::default()
    }
}

#[test]
fn carrier_sources_and_hardware_snapshot_match_the_compatibility_policy() {
    let mut state = State::default();
    let mut inputs = active_inputs();
    let mut config = enabled_config();

    assert!(advance(&config, &inputs, 0, &mut state).carrier_active);
    assert!(state.external_carrier_detect);

    inputs.hardware_carrier = false;
    config.carrier_source = CarrierSource::HardwareInverted;
    assert!(advance(&config, &inputs, 0, &mut state).carrier_active);
    assert!(state.external_carrier_detect);

    config.carrier_source = CarrierSource::DspNoise;
    assert!(advance(&config, &inputs, 0, &mut state).carrier_active);
    config.carrier_source = CarrierSource::DspVox;
    assert!(advance(&config, &inputs, 0, &mut state).carrier_active);

    inputs.parallel_carrier = false;
    config.carrier_source = CarrierSource::ParallelInverted;
    assert!(advance(&config, &inputs, 0, &mut state).carrier_active);
    config.carrier_source = CarrierSource::Parallel;
    assert!(!advance(&config, &inputs, 0, &mut state).carrier_active);
}

#[test]
fn subaudible_precedence_external_sources_and_override_match_legacy() {
    let mut state = State::default();
    let mut inputs = active_inputs();
    let mut config = enabled_config();

    inputs.ctcss_receive_enabled = true;
    inputs.ctcss_decoder_available = true;
    inputs.ctcss_decoded = true;
    inputs.signal_mode = SignalMode::Ctcss;
    config.subaudible_source = SubaudibleSource::Dsp;
    assert!(advance(&config, &inputs, 0, &mut state).subaudible_active);

    inputs.dcs_receive_enabled = true;
    inputs.dcs_valid = true;
    inputs.signal_mode = SignalMode::Dcs;
    assert!(advance(&config, &inputs, 0, &mut state).subaudible_active);
    inputs.signal_mode = SignalMode::Ctcss;
    assert!(!advance(&config, &inputs, 0, &mut state).subaudible_active);

    config.subaudible_source = SubaudibleSource::HardwareInverted;
    inputs.hardware_subaudible = false;
    assert!(advance(&config, &inputs, 0, &mut state).subaudible_active);
    config.subaudible_source = SubaudibleSource::Parallel;
    inputs.parallel_subaudible = false;
    assert!(!advance(&config, &inputs, 0, &mut state).subaudible_active);
    config.subaudible_override = true;
    assert!(advance(&config, &inputs, 0, &mut state).subaudible_active);
}

#[test]
fn duplex_and_blanking_gate_carrier_before_qualification() {
    let mut state = State::default();
    let mut inputs = active_inputs();
    let mut config = enabled_config();

    config.radio_duplex = false;
    inputs.tx_ptt_out = true;
    assert!(!advance(&config, &inputs, 0, &mut state).carrier_active);

    config.advanced_transport = true;
    assert!(advance(&config, &inputs, 0, &mut state).carrier_active);

    inputs.txrx_blanking_active = true;
    assert!(!advance(&config, &inputs, 0, &mut state).carrier_active);
}

#[test]
fn ignored_carrier_and_subaudible_sources_force_the_receiver_closed() {
    let mut state = State::default();
    let config = Config::default();

    assert_eq!(
        advance(&config, &active_inputs(), 0, &mut state),
        Output {
            carrier_active: false,
            subaudible_active: false,
            rx_keyed: false,
        }
    );
}

#[test]
fn incomplete_decodes_and_external_subaudible_sources_keep_their_precedence() {
    let mut config = enabled_config();
    let mut inputs = active_inputs();
    inputs.ctcss_receive_enabled = true;
    inputs.signal_mode = SignalMode::Ctcss;
    for (available, decoded, mode) in [
        (false, true, SignalMode::Ctcss),
        (true, false, SignalMode::Ctcss),
        (true, true, SignalMode::Inactive),
    ] {
        inputs.ctcss_decoder_available = available;
        inputs.ctcss_decoded = decoded;
        inputs.signal_mode = mode;
        assert!(!advance(&config, &inputs, 0, &mut State::default()).subaudible_active);
    }
    inputs.dcs_receive_enabled = true;
    inputs.dcs_valid = false;
    inputs.signal_mode = SignalMode::Dcs;
    assert!(!advance(&config, &inputs, 0, &mut State::default()).subaudible_active);
    config.carrier_source = CarrierSource::Ignore;
    for source in [
        SubaudibleSource::Hardware,
        SubaudibleSource::ParallelInverted,
    ] {
        config.subaudible_source = source;
        inputs.hardware_subaudible = true;
        inputs.parallel_subaudible = false;
        let output = advance(&config, &inputs, 0, &mut State::default());
        assert!(!output.carrier_active);
        assert!(output.subaudible_active);
        assert!(!output.rx_keyed);
    }
}

#[test]
fn configured_delays_use_exact_elapsed_native_frames() {
    let mut state = State::default();
    let mut config = enabled_config();
    let inputs = active_inputs();

    config.rx_on_delay_frames = 2;
    assert!(!advance(&config, &inputs, 1_919, &mut state).rx_keyed);
    assert_eq!(state.rx_admission_elapsed_frames, 1_919);
    assert!(advance(&config, &inputs, 1, &mut state).rx_keyed);
    assert_eq!(
        state.rx_admission_elapsed_frames,
        2 * QUALIFICATION_INTERVAL_FRAMES
    );
    assert!(advance(&config, &inputs, 1, &mut state).rx_keyed);
    assert_eq!(
        state.rx_admission_elapsed_frames,
        2 * QUALIFICATION_INTERVAL_FRAMES
    );

    let mut full_interval_state = State::default();
    assert!(!advance(&config, &inputs, 960, &mut full_interval_state).rx_keyed);
    assert!(advance(&config, &inputs, 960, &mut full_interval_state).rx_keyed);

    config.rx_on_delay_frames = 0;
    let mut immediate_state = State::default();
    assert!(advance(&config, &inputs, 0, &mut immediate_state).rx_keyed);

    config.tx_off_delay_frames = 2;
    let keyed_inputs = Inputs {
        tx_ptt_out: true,
        ..inputs
    };
    let mut holdoff = State::default();
    assert!(!advance(&config, &keyed_inputs, 137, &mut holdoff).rx_keyed);
    assert_eq!(holdoff.tx_release_elapsed_frames, 0);
    assert!(!advance(&config, &inputs, 1_919, &mut holdoff).rx_keyed);
    assert_eq!(holdoff.tx_release_elapsed_frames, 1_919);
    assert!(advance(&config, &inputs, 1, &mut holdoff).rx_keyed);
    assert_eq!(
        holdoff.tx_release_elapsed_frames,
        2 * QUALIFICATION_INTERVAL_FRAMES
    );

    let mut capped_state = State {
        tx_release_elapsed_frames: MAX_TX_OFF_DELAY_FRAMES,
        ..State::default()
    };
    assert!(advance(&config, &inputs, 960, &mut capped_state).rx_keyed);
    assert_eq!(
        capped_state.tx_release_elapsed_frames,
        MAX_TX_OFF_DELAY_FRAMES
    );
}

#[test]
fn receive_rise_has_the_same_delay_after_each_prior_callback_phase() {
    const PARTITIONS: [u32; 7] = [5, 1, 7, 5, 942, 479, 481];
    const PRIOR_PHASES: [u32; 7] = [0, 1, 5, 479, 959, 960, 1_919];
    let config = Config {
        rx_on_delay_frames: 2,
        ..enabled_config()
    };
    let inactive = Inputs {
        ctcss_receive_enabled: false,
        ..Inputs::default()
    };
    let active = active_inputs();

    for prior_frames in PRIOR_PHASES {
        let mut threshold = State::default();
        let mut whole = State::default();
        let mut partitioned = State::default();
        if prior_frames != 0 {
            let _ = advance(&config, &inactive, prior_frames, &mut threshold);
            let _ = advance(&config, &inactive, prior_frames, &mut whole);
            let _ = advance(&config, &inactive, prior_frames, &mut partitioned);
        }

        assert!(
            !advance(&config, &active, 1_919, &mut threshold).rx_keyed,
            "prior phase {prior_frames}"
        );
        assert!(
            advance(&config, &active, 1, &mut threshold).rx_keyed,
            "prior phase {prior_frames}"
        );

        assert!(advance(&config, &active, 1_920, &mut whole).rx_keyed);
        for frames in PARTITIONS {
            let _ = advance(&config, &active, frames, &mut partitioned);
        }
        assert_eq!(partitioned, whole, "prior phase {prior_frames}");
    }
}

#[test]
fn ptt_release_has_the_same_guard_after_each_prior_callback_phase() {
    const PARTITIONS: [u32; 7] = [5, 1, 7, 5, 942, 479, 481];
    const PRIOR_PHASES: [u32; 7] = [0, 1, 5, 479, 959, 960, 1_919];
    let config = Config {
        tx_off_delay_frames: 2,
        ..enabled_config()
    };
    let released = active_inputs();
    let keyed = Inputs {
        tx_ptt_out: true,
        ..released
    };

    for prior_frames in PRIOR_PHASES {
        let mut threshold = State::default();
        let mut whole = State::default();
        let mut partitioned = State::default();
        let _ = advance(&config, &keyed, prior_frames, &mut threshold);
        let _ = advance(&config, &keyed, prior_frames, &mut whole);
        let _ = advance(&config, &keyed, prior_frames, &mut partitioned);

        assert!(
            !advance(&config, &released, 1_919, &mut threshold).rx_keyed,
            "prior phase {prior_frames}"
        );
        assert!(
            advance(&config, &released, 1, &mut threshold).rx_keyed,
            "prior phase {prior_frames}"
        );

        assert!(advance(&config, &released, 1_920, &mut whole).rx_keyed);
        for frames in PARTITIONS {
            let _ = advance(&config, &released, frames, &mut partitioned);
        }
        assert_eq!(partitioned, whole, "prior phase {prior_frames}");
    }
}

#[test]
fn signal_loss_clears_receive_immediately_and_restarts_the_delay() {
    let mut state = State::default();
    let config = Config {
        rx_on_delay_frames: 1,
        ..enabled_config()
    };
    let inactive = Inputs {
        ctcss_receive_enabled: false,
        ..Inputs::default()
    };

    assert!(advance(&config, &active_inputs(), 959, &mut state).carrier_active);
    assert!(!state.rx_keyed);
    assert_eq!(state.rx_admission_elapsed_frames, 959);
    assert!(!advance(&config, &inactive, 0, &mut state).rx_keyed);
    assert_eq!(state.rx_admission_elapsed_frames, 0);
    assert!(!advance(&config, &active_inputs(), 959, &mut state).rx_keyed);
    assert!(advance(&config, &active_inputs(), 1, &mut state).rx_keyed);
}

#[test]
fn zero_span_publishes_indications_without_advancing_nonzero_delay() {
    let mut state = State::default();
    let config = Config {
        rx_on_delay_frames: 1,
        tx_off_delay_frames: 1,
        ..enabled_config()
    };

    assert!(advance(&config, &active_inputs(), 0, &mut state).carrier_active);
    assert_eq!(state.rx_admission_elapsed_frames, 0);
    assert_eq!(state.tx_release_elapsed_frames, 0);
    assert!(!state.rx_keyed);
}
