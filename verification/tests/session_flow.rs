use lib::receive_path::ProcessResult;
use lib::receive_qualification::{CarrierSource, Config, State, SubaudibleSource};
use lib::rx_cpu_saver::RxCpuSaverState;
use lib::session::{
    Event, EventQueue, BUSY, FRAME_COUNT_EXCEEDED, INVALID_ARGUMENT, NOT_READY, OK, PROVIDER_FAILED,
};
use lib::session_flow::{
    receive_admit, receive_commit, receive_decide, receive_step, release, report_provider_failure, ring_result_valid,
    ring_render_accepted, select_notch, transmit_active_frames, transmit_admit, transmit_commit, transmit_step,
    warm_admit, warm_step, ReceiveControls, ReceiveStage, ReceiveWorker, RenderSpanCodes, RingResultCodes,
    SignalingOutcome, StageAction, TransmitStage, TransmitWorker, VoiceGate, WarmAction, WarmPlan, WarmPort,
    squelch_delay,
};

fn drain(queue: &mut EventQueue) -> Vec<(u32, i32, u64)> {
    let mut events = Vec::new();
    let mut event = Event { generation_id: 0, sample_index: 0, kind: 0, value: 0 };
    while queue.pop(&mut event) {
        events.push((event.kind, event.value, event.sample_index));
    }
    events
}

#[test]
fn receive_admission_reports_codes_in_order() {
    let mut busy = false;
    assert_eq!(receive_admit(false, &mut busy, 0, 4, true, false), Err(INVALID_ARGUMENT));
    assert_eq!(receive_admit(false, &mut busy, 2, 4, false, true), Err(INVALID_ARGUMENT));
    assert_eq!(receive_admit(false, &mut busy, 2, 4, true, false), Err(NOT_READY));
    busy = true;
    assert_eq!(receive_admit(true, &mut busy, 9, 4, true, false), Err(BUSY));
    busy = false;
    assert_eq!(receive_admit(true, &mut busy, 9, 4, true, false), Err(FRAME_COUNT_EXCEEDED));
    assert!(!busy);
    assert_eq!(receive_admit(true, &mut busy, 4, 4, true, false), Err(INVALID_ARGUMENT));
    assert!(!busy);
    assert_eq!(receive_admit(true, &mut busy, 4, 4, true, true), Ok(()));
    assert!(busy);
    release(&mut busy);
    assert!(!busy);
}

#[test]
fn transmit_admission_holds_the_worker_until_release() {
    let mut busy = false;
    assert_eq!(transmit_admit(true, &mut busy, 3, 8, true), Ok(()));
    assert_eq!(transmit_admit(true, &mut busy, 3, 8, true), Err(BUSY));
    release(&mut busy);
    assert_eq!(transmit_admit(true, &mut busy, 9, 8, true), Err(FRAME_COUNT_EXCEEDED));
    assert!(!busy);
}

#[test]
fn ring_results_are_validated() {
    let good = RingResultCodes { receiver_keyed: 1, ctcss_decoded_index: 37, dcs_valid: 0 };
    assert!(ring_result_valid(good));
    assert!(ring_result_valid(RingResultCodes { ctcss_decoded_index: -1, ..good }));
    assert!(!ring_result_valid(RingResultCodes { ctcss_decoded_index: 38, ..good }));
    assert!(!ring_result_valid(RingResultCodes { ctcss_decoded_index: -2, ..good }));
    assert!(!ring_result_valid(RingResultCodes { receiver_keyed: 2, ..good }));
    assert!(!ring_result_valid(RingResultCodes { dcs_valid: 2, ..good }));
    assert!(ring_render_accepted(true, 0, true, good));
    assert!(!ring_render_accepted(true, 1, true, good));
    assert!(!ring_render_accepted(true, 0, false, good));
    assert!(ring_render_accepted(false, 1, false, RingResultCodes { dcs_valid: 9, ..good }));
}

fn plan() -> WarmPlan {
    WarmPlan {
        warmed: false,
        notch_present: vec![false, true, false, true],
        tail_notch_present: true,
        ring_warm_present: true,
        step: 0,
    }
}

#[test]
fn warm_up_visits_ports_in_order() {
    let mut plan = plan();
    let mut seen = Vec::new();
    let code = loop {
        match warm_step(&mut plan, Ok(())) {
            WarmAction::Exercise(port) => seen.push(port),
            WarmAction::Finish(code) => break code,
        }
    };
    assert_eq!(code, OK);
    assert!(plan.warmed);
    assert_eq!(
        seen,
        vec![
            WarmPort::ReceiveDeemphasis,
            WarmPort::ReceiveFilter,
            WarmPort::ReceiveNoiseReduction,
            WarmPort::ReceiveDynamics,
            WarmPort::CtcssNotch(1),
            WarmPort::CtcssNotch(3),
            WarmPort::CtcssTailNotch,
            WarmPort::TransmitProgram,
            WarmPort::TransmitDcsNormal,
            WarmPort::TransmitDcsTurnoff,
            WarmPort::ProgramRing,
        ]
    );
    assert_eq!(warm_step(&mut plan, Ok(())), WarmAction::Finish(OK));
}

#[test]
fn warm_up_failure_leaves_the_session_cold() {
    let mut plan = plan();
    assert_eq!(warm_step(&mut plan, Ok(())), WarmAction::Exercise(WarmPort::ReceiveDeemphasis));
    assert_eq!(warm_step(&mut plan, Err(-7)), WarmAction::Finish(PROVIDER_FAILED));
    assert!(!plan.warmed);
}

#[test]
fn warm_admission_claims_both_workers() {
    let (mut rx, mut tx) = (false, false);
    assert_eq!(warm_admit(true, &mut rx, &mut tx), Ok(true));
    assert!(!rx && !tx);
    tx = true;
    assert_eq!(warm_admit(false, &mut rx, &mut tx), Err(BUSY));
    assert!(!rx);
    tx = false;
    assert_eq!(warm_admit(false, &mut rx, &mut tx), Ok(false));
    assert!(rx && tx);
}

fn worker(per_sample_noise_gate: bool, cpu_saver_enabled: bool) -> ReceiveWorker {
    ReceiveWorker {
        qualification: Config {
            carrier_source: CarrierSource::Hardware,
            subaudible_source: SubaudibleSource::Hardware,
            ..Config::default()
        },
        qualification_state: State::default(),
        cpu_saver_enabled,
        cpu_saver_state: RxCpuSaverState::default(),
        per_sample_noise_gate,
        ctcss_enabled: false,
        dcs_enabled: false,
        publication_interval_frames: 960,
        next_publication_frame: 960,
        sample_index: 0,
        previous_carrier: false,
        previous_subaudible: false,
        previous_keyed: false,
        previous_ctcss: -1,
        previous_dcs: false,
    }
}

fn detected() -> ProcessResult {
    ProcessResult {
        native_frame_count: 480,
        baseband_frame_count: 80,
        blanked_native_frames: 0,
        carrier_detect: false,
        vox_detect: false,
        ctcss_decoded: -1,
        dcs_valid: false,
        ctcss_decoder_peak: 0,
        rssi_peak: 12,
        rssi_updated: true,
    }
}

fn controls(carrier: u32, subaudible: u32, subaudible_override: u32) -> ReceiveControls {
    ReceiveControls {
        hardware_carrier: carrier,
        parallel_carrier: 0,
        hardware_subaudible: subaudible,
        parallel_subaudible: 0,
        subaudible_override,
    }
}

#[test]
fn receive_span_qualifies_and_queues_edges_in_order() {
    let mut w = worker(false, false);
    let mut events = EventQueue::new();
    let d = receive_decide(&mut w, controls(1, 1, 0), detected(), 480, false);
    assert!(d.qualification.carrier_active && d.qualification.subaudible_active && d.qualification.rx_keyed);
    assert_eq!(d.gate, VoiceGate::Pass);
    assert!(!d.bypass_noise_reduction);
    assert!(d.voice_processing_active);
    assert!(drain(&mut events).is_empty());
    let c = receive_commit(&mut w, d.qualification, detected(), 480, &mut events, 5);
    assert_eq!(c.first_sample_index, 0);
    assert!(!c.periodic_status_due);
    assert_eq!(c.rssi_peak, 12);
    assert_eq!(w.sample_index, 480);
    assert_eq!(drain(&mut events), vec![(1, 1, 480), (2, 1, 480), (3, 1, 480)]);
    let c = receive_commit(&mut w, d.qualification, ProcessResult { ctcss_decoded: 4, dcs_valid: true, ..detected() }, 480, &mut events, 5);
    assert!(c.periodic_status_due);
    assert_eq!(w.next_publication_frame, 1_920);
    assert_eq!(drain(&mut events), vec![(4, 4, 960), (5, 1, 960)]);
}

#[test]
fn per_call_override_supplies_subaudible() {
    let mut w = worker(false, false);
    let d = receive_decide(&mut w, controls(1, 0, 1), detected(), 480, false);
    assert!(d.qualification.subaudible_active);
    let mut w = worker(false, false);
    let d = receive_decide(&mut w, controls(1, 0, 0), detected(), 480, false);
    assert!(!d.qualification.subaudible_active);
    assert!(!d.qualification.rx_keyed);
}

#[test]
fn gating_and_cpu_saver_follow_the_qualified_receiver() {
    let mut w = worker(true, false);
    assert_eq!(receive_decide(&mut w, controls(0, 0, 0), detected(), 48, false).gate, VoiceGate::PerFrame);
    let mut w = worker(false, true);
    let d = receive_decide(&mut w, controls(0, 0, 0), detected(), 48, false);
    assert_eq!(d.gate, VoiceGate::Mute);
    assert!(d.bypass_noise_reduction);
    assert!(!d.voice_processing_active);
    assert_eq!(w.cpu_saver_state.halted, 1);
    let d = receive_decide(&mut w, controls(0, 0, 0), detected(), 48, true);
    assert!(d.voice_processing_active);
    assert_eq!(w.cpu_saver_state.halted, 0);
}

#[test]
fn receive_stages_follow_the_bypass_choice() {
    let mut done = 0;
    let mut stages = Vec::new();
    while let StageAction::Run(stage) = receive_step(&mut done, false, Ok(())) {
        stages.push(stage);
    }
    assert_eq!(stages, vec![ReceiveStage::Deemphasis, ReceiveStage::Filters, ReceiveStage::NoiseReduction, ReceiveStage::Dynamics]);
    let mut done = 0;
    let mut stages = Vec::new();
    while let StageAction::Run(stage) = receive_step(&mut done, true, Ok(())) {
        stages.push(stage);
    }
    assert_eq!(stages, vec![ReceiveStage::Deemphasis, ReceiveStage::Filters, ReceiveStage::BypassNoiseReduction]);
    let mut done = 1;
    assert_eq!(receive_step(&mut done, false, Err(-3)), StageAction::Fail(PROVIDER_FAILED));
}

#[test]
fn transmit_consumes_the_ring_before_signaling() {
    let mut done = 0;
    let mut stages = Vec::new();
    while let StageAction::Run(stage) = transmit_step(&mut done, Ok(())) {
        stages.push(stage);
    }
    assert_eq!(
        stages,
        vec![
            TransmitStage::RenderRing,
            TransmitStage::ProcessProgram,
            TransmitStage::TickSignaling,
            TransmitStage::ShapeDcsNormal,
            TransmitStage::ShapeDcsTurnoff,
        ]
    );
    let mut done = 3;
    assert_eq!(transmit_step(&mut done, Err(-1)), StageAction::Fail(INVALID_ARGUMENT));
    let mut done = 1;
    assert_eq!(transmit_step(&mut done, Err(-1)), StageAction::Fail(PROVIDER_FAILED));
}

#[test]
fn keyed_render_spans_select_output_frames() {
    let spans = [
        RenderSpanCodes { frame_offset: 0, frame_count: 2, logical_ptt: false },
        RenderSpanCodes { frame_offset: 2, frame_count: 3, logical_ptt: true },
        RenderSpanCodes { frame_offset: 5, frame_count: 9, logical_ptt: true },
    ];
    assert_eq!(transmit_active_frames(&spans, 6), vec![false, false, true, true, true, true]);
    assert_eq!(transmit_active_frames(&[], 2), vec![false, false]);
}

#[test]
fn transmit_commit_publishes_ptt_ctcss_and_blanking() {
    let mut w = TransmitWorker { publication_interval_frames: 100, next_publication_frame: 100, sample_index: 0 };
    let mut events = EventQueue::new();
    let outcome = SignalingOutcome {
        logical_ptt: true,
        logical_ptt_raised: true,
        logical_ptt_released: false,
        ctcss_status_event: true,
        ctcss_tenths_hz: 1_000,
        receiver_blanking_ms: Some(40),
    };
    let c = transmit_commit(&mut w, 150, outcome, &mut events, 3);
    assert_eq!(c.first_sample_index, 0);
    assert!(c.periodic_status_due);
    assert_eq!(w.next_publication_frame, 200);
    assert_eq!(drain(&mut events), vec![(6, 1, 150), (7, 1_000, 150), (8, 40, 150)]);
    let quiet = SignalingOutcome {
        logical_ptt_raised: false,
        ctcss_status_event: false,
        receiver_blanking_ms: None,
        ..outcome
    };
    let c = transmit_commit(&mut w, 10, quiet, &mut events, 3);
    assert!(!c.periodic_status_due);
    assert!(drain(&mut events).is_empty());
}

#[test]
fn provider_failures_are_counted_and_queued() {
    let mut events = EventQueue::new();
    let mut failures = u64::MAX;
    report_provider_failure(&mut events, &mut failures, 2, 77);
    assert_eq!(failures, 0);
    assert_eq!(drain(&mut events), vec![(9, 1, 77)]);
}

#[test]
fn notch_selection_prefers_the_tail_tone() {
    let present = [false, true];
    assert_eq!(select_notch(1, false, &present, true), Some(WarmPort::CtcssNotch(1)));
    assert_eq!(select_notch(0, false, &present, true), None);
    assert_eq!(select_notch(-1, false, &present, true), None);
    assert_eq!(select_notch(5, false, &present, true), None);
    assert_eq!(select_notch(1, true, &present, true), Some(WarmPort::CtcssTailNotch));
    assert_eq!(select_notch(1, true, &present, false), None);
}

#[test]
fn squelch_delay_holds_samples_for_the_ring_length() {
    let mut ring = vec![0_i16; 3];
    let mut index = 0_usize;
    assert_eq!(squelch_delay(&mut ring, &mut index, &[1, 2]), vec![0, 0]);
    assert_eq!(squelch_delay(&mut ring, &mut index, &[3, 4, 5]), vec![0, 1, 2]);
    assert_eq!(squelch_delay(&mut ring, &mut index, &[6]), vec![3]);
    assert_eq!(index, 0);
    let mut empty: Vec<i16> = Vec::new();
    let mut cursor = 0_usize;
    assert_eq!(squelch_delay(&mut empty, &mut cursor, &[7, 8]), vec![7, 8]);
}

#[test]
fn periodic_status_marks_each_crossed_interval_across_calls() {
    let mut w = TransmitWorker { publication_interval_frames: 960, next_publication_frame: 960, sample_index: 0 };
    let mut events = EventQueue::new();
    let quiet = SignalingOutcome {
        logical_ptt: false,
        logical_ptt_raised: false,
        logical_ptt_released: false,
        ctcss_status_event: false,
        ctcss_tenths_hz: 0,
        receiver_blanking_ms: None,
    };
    let mut flags = Vec::new();
    for frames in [500_u32, 459, 1, 2_000, 1] {
        flags.push(transmit_commit(&mut w, frames, quiet, &mut events, 1).periodic_status_due);
    }
    assert_eq!(flags, vec![false, false, true, true, false]);
    assert_eq!(w.next_publication_frame, 3_840);
}
