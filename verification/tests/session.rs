use lib::receive_qualification::{CarrierSource, SubaudibleSource};
use lib::session::UNSUPPORTED;
use lib::session_flow::session_setup;
use lib::session::{
    bool32, carrier_source, enter, publication_due, push_edge, receive_config, subaudible_source, tone_off_mode,
    transmit_config, Event, EventKind, EventQueue, OutputRoute, QualificationConfig, ReceiveConfig, ToneOffMode,
    TransmitConfig, BUSY,
    EVENT_CAPACITY, INVALID_ARGUMENT,
};

#[test]
fn event_queue_is_bounded_fifo() {
    let mut queue = EventQueue::new();
    for value in 0..EVENT_CAPACITY as i32 {
        queue.push(Event { value, ..Event::default() });
    }
    queue.push(Event { value: 99, ..Event::default() });
    assert_eq!(queue.drops(), 1);
    let mut event = Event::default();
    for value in 0..EVENT_CAPACITY as i32 {
        assert!(queue.pop(&mut event));
        assert_eq!(event.value, value);
    }
    assert!(!queue.pop(&mut event));
}

#[test]
fn publication_deadline_has_no_partition_drift() {
    let mut next = 2_400;
    assert!(!publication_due(2_399, &mut next, 2_400));
    assert!(publication_due(2_401, &mut next, 2_400));
    assert_eq!(next, 4_800);
    assert!(publication_due(9_601, &mut next, 2_400));
    assert_eq!(next, 12_000);
}

#[test]
fn output_route_selectors_decode_voice_and_tone() {
    assert!(OutputRoute::parse(5).is_err());
    assert_eq!(OutputRoute::parse(0), Ok(OutputRoute::Disabled));
    assert!(OutputRoute::parse(1).unwrap().voice() && !OutputRoute::parse(1).unwrap().tone());
    assert!(OutputRoute::parse(2).unwrap().tone() && !OutputRoute::parse(2).unwrap().voice());
    assert!(OutputRoute::parse(3).unwrap().tone() && OutputRoute::parse(3).unwrap().voice());
    assert!(OutputRoute::parse(4).unwrap().voice() && !OutputRoute::parse(4).unwrap().tone());
}

#[test]
fn numeric_selectors_accept_only_their_documented_values() {
    assert_eq!(bool32(0), Ok(false));
    assert_eq!(bool32(1), Ok(true));
    assert_eq!(bool32(2), Err(INVALID_ARGUMENT));
    assert_eq!(carrier_source(1), Ok(CarrierSource::DspNoise));
    assert_eq!(carrier_source(6), Ok(CarrierSource::ParallelInverted));
    assert_eq!(carrier_source(7), Err(INVALID_ARGUMENT));
    assert_eq!(subaudible_source(3), Ok(SubaudibleSource::Dsp));
    assert_eq!(subaudible_source(6), Err(INVALID_ARGUMENT));
    assert_eq!(tone_off_mode(3), Ok(ToneOffMode::TailTone));
    assert_eq!(tone_off_mode(4), Err(INVALID_ARGUMENT));
}

#[test]
fn reentrant_worker_claim_is_refused() {
    let mut busy = false;
    assert_eq!(enter(&mut busy), Ok(()));
    assert!(busy);
    assert_eq!(enter(&mut busy), Err(BUSY));
    assert!(busy);
}

#[test]
fn pushed_edges_carry_their_kind_code_and_full_queues_count_drops() {
    let mut queue = EventQueue::new();
    push_edge(&mut queue, 42, 960, EventKind::ProviderFailure, 1);
    let mut event = Event::default();
    assert!(queue.pop(&mut event));
    assert_eq!(event, Event { generation_id: 42, sample_index: 960, kind: 9, value: 1 });
    for _ in 0..EVENT_CAPACITY + 3 {
        push_edge(&mut queue, 1, 0, EventKind::Carrier, 0);
    }
    assert_eq!(queue.drops(), 3);
}

fn valid_receive() -> ReceiveConfig {
    ReceiveConfig {
        noise_filter_profile: 0,
        squelch_open_level: 0,
        squelch_hysteresis: 0,
        vox_threshold: 0,
        vox_hang_ms: 0,
        ctcss_enabled: 0,
        ctcss_tone_mask: 0,
        ctcss_relax: 0,
        dcs_enabled: 0,
        dcs_code: 0,
        dcs_inverted: 0,
        cpu_saver_enabled: 0,
        native_squelch_delay_frames: 0,
    }
}

fn valid_qualification() -> QualificationConfig {
    QualificationConfig {
        carrier_source: 3,
        subaudible_source: 0,
        subaudible_override: 0,
        advanced_transport: 0,
        radio_duplex: 1,
        rx_on_delay_blocks: 0,
        tx_off_delay_blocks: 0,
    }
}

#[test]
fn receive_configuration_builds_a_valid_receive_path() {
    let mut rx = valid_receive();
    rx.ctcss_enabled = 1;
    rx.ctcss_tone_mask = 1 << 11;
    let setup = receive_config(48_000, 16, &rx, Ok(256), &valid_qualification()).expect("valid receive setup");
    assert!(setup.ctcss_enabled && !setup.dcs_enabled);
    assert_eq!(setup.ctcss.coefficients.len(), 88);
    let path = lib::receive_path::setup(&setup.path_config()).expect("validated path");
    assert_eq!(path.baseband_capacity, (16 + 10) / 6);
    assert_eq!(setup.qualification.carrier_source, CarrierSource::Hardware);
}

#[test]
fn receive_configuration_rejects_each_nonsemantic_value() {
    let q = valid_qualification();
    let mut cases = Vec::new();
    let mut rx = valid_receive();
    rx.noise_filter_profile = 2;
    cases.push((rx, q, Ok(256)));
    let mut rx = valid_receive();
    rx.squelch_open_level = 32_768;
    cases.push((rx, q, Ok(256)));
    let mut rx = valid_receive();
    rx.vox_threshold = -1;
    cases.push((rx, q, Ok(256)));
    let mut rx = valid_receive();
    rx.vox_hang_ms = 32_768;
    cases.push((rx, q, Ok(256)));
    let mut rx = valid_receive();
    rx.ctcss_tone_mask = 1 << 38;
    cases.push((rx, q, Ok(256)));
    let mut rx = valid_receive();
    rx.ctcss_enabled = 1;
    rx.dcs_enabled = 1;
    cases.push((rx, q, Ok(256)));
    let mut rx = valid_receive();
    rx.dcs_enabled = 1;
    rx.dcs_code = 0o1000;
    cases.push((rx, q, Ok(256)));
    let mut rx = valid_receive();
    rx.dcs_inverted = 2;
    cases.push((rx, q, Ok(256)));
    let mut bad_q = q;
    bad_q.carrier_source = 7;
    cases.push((valid_receive(), bad_q, Ok(256)));
    cases.push((valid_receive(), q, Err(INVALID_ARGUMENT)));
    for (rx, q, gain) in cases {
        assert_eq!(receive_config(48_000, 16, &rx, gain, &q).err(), Some(INVALID_ARGUMENT));
    }
}

fn transmit() -> TransmitConfig {
    TransmitConfig {
        ctcss_transmit_enabled: 1,
        default_ctcss_frequency_tenths_hz: 1_000,
        mapped_ctcss_frequency_tenths_hz: [0; 38],
        tone_off_mode: 1,
        ctcss_turnoff_duration_ms: 180,
        dcs_transmit_enabled: 0,
        dcs_turnoff_enabled: 1,
        dcs_turnoff_duration_ms: 200,
        receiver_blanking_ms: 7,
        tx_settle_time_ms: 30,
        cpu_saver_enabled: 0,
        dcs_code: 0o023,
        dcs_inverted: 0,
        output_a_route: 3,
        output_b_route: 1,
    }
}

#[test]
fn transmit_config_decodes_selectors_and_fixes_the_signal_mode_hold() {
    let setup = transmit_config(&transmit(), true).expect("valid transmitter");
    assert_eq!(setup.signal_mode.hold_ms, 2_500);
    assert_eq!(setup.signal_mode.ctcss_tx_enabled, 1);
    assert_eq!(setup.signal_mode.default_tx_ctcss_frequency_tenths_hz, 1_000);
    assert_eq!(setup.tone_off_mode, ToneOffMode::PhaseShift);
    assert_eq!(setup.dcs_turnoff.turnoff_duration_ms, 200);
    assert!(!setup.dcs_transmit_enabled);
    assert!(setup.dcs_turnoff_enabled);
    assert_eq!(setup.receiver_blanking_ms, 7);
    assert_eq!(setup.output_a, OutputRoute::Composite);
    assert_eq!(setup.output_b, OutputRoute::Voice);
}

#[test]
fn transmit_config_rejects_each_invalid_selector() {
    let cases: &[fn(&mut TransmitConfig)] = &[
        |c| c.ctcss_transmit_enabled = 2,
        |c| c.dcs_transmit_enabled = 2,
        |c| c.dcs_inverted = 2,
        |c| c.dcs_transmit_enabled = 1,
        |c| {
            c.ctcss_transmit_enabled = 0;
            c.dcs_transmit_enabled = 1;
            c.dcs_code = 0o1000;
        },
        |c| c.tone_off_mode = 4,
        |c| c.dcs_turnoff_enabled = 2,
        |c| c.cpu_saver_enabled = 2,
        |c| c.output_a_route = 5,
        |c| c.output_b_route = 5,
    ];
    for configure in cases {
        let mut config = transmit();
        configure(&mut config);
        assert_eq!(transmit_config(&config, true).err(), Some(INVALID_ARGUMENT));
    }
    assert_eq!(transmit_config(&transmit(), false).err(), Some(INVALID_ARGUMENT));
    let mut dcs = transmit();
    dcs.ctcss_transmit_enabled = 0;
    dcs.dcs_transmit_enabled = 1;
    assert!(transmit_config(&dcs, true).expect("DCS transmitter").dcs_transmit_enabled);
}

fn session_codes() -> lib::session_flow::SessionConfigCodes {
    lib::session_flow::SessionConfigCodes {
        struct_size: 400,
        config_layout_size: 400,
        ports_struct_size: 200,
        ports_layout_size: 200,
        abi_version: 4,
        generation_id: 9,
        native_sample_rate_hz: 48_000,
        interleaved_channels: 2,
        maximum_receive_frame_count: 480,
        maximum_transmit_frame_count: 960,
        publication_interval_ms: 20,
        receive_channel: 1,
        receive_input_gain_valid: true,
        receive: valid_receive(),
        qualification: valid_qualification(),
        transmit: transmit(),
    }
}

#[test]
fn session_setup_decodes_a_valid_configuration() {
    let setup = session_setup(&session_codes(), Ok(256), true, true).ok().expect("valid session");
    assert_eq!(setup.generation_id, 9);
    assert_eq!(setup.receive_channel, 1);
    assert_eq!(setup.maximum_receive_frames, 480);
    assert_eq!(setup.maximum_transmit_frames, 960);
    assert_eq!(setup.publication_frames, 960);
    assert!(!setup.per_sample_noise_gate);
    assert_eq!(setup.receive.qualification.carrier_source, CarrierSource::Hardware);
    assert_eq!(setup.transmit.output_a, OutputRoute::Composite);
}

#[test]
fn session_setup_refuses_malformed_before_unsupported() {
    let refused = |codes: lib::session_flow::SessionConfigCodes, finite: bool| {
        session_setup(&codes, Ok(256), true, finite).map(|_| ()).err()
    };
    let malformed: &[fn(&mut lib::session_flow::SessionConfigCodes)] = &[
        |c| c.struct_size = 399,
        |c| c.ports_struct_size = 10,
        |c| c.abi_version = 3,
        |c| c.maximum_receive_frame_count = 0,
        |c| c.maximum_transmit_frame_count = 0,
        |c| c.publication_interval_ms = 0,
        |c| c.receive_channel = 2,
        |c| c.receive_input_gain_valid = false,
        |c| c.qualification.rx_on_delay_blocks = 3_001,
        |c| c.qualification.tx_off_delay_blocks = 3_001,
    ];
    for mutate in malformed {
        let mut codes = session_codes();
        mutate(&mut codes);
        codes.native_sample_rate_hz = 44_100;
        assert_eq!(refused(codes, true), Some(INVALID_ARGUMENT));
    }
    assert_eq!(refused(session_codes(), false), Some(INVALID_ARGUMENT));
    let mut codes = session_codes();
    codes.native_sample_rate_hz = 44_100;
    assert_eq!(refused(codes, true), Some(UNSUPPORTED));
    let mut codes = session_codes();
    codes.interleaved_channels = 1;
    assert_eq!(refused(codes, true), Some(UNSUPPORTED));
    let mut codes = session_codes();
    codes.qualification.carrier_source = 99;
    assert_eq!(refused(codes, true), Some(INVALID_ARGUMENT));
    assert_eq!(session_setup(&session_codes(), Ok(256), false, true).map(|_| ()).err(), Some(INVALID_ARGUMENT));
    assert_eq!(refused(session_codes(), true), None);
}
