//! The decisions of the session callbacks: admission of a receive or
//! transmit span, validation of a program-ring result, the order in which
//! prepared processors are warmed, the session setup, and the per-span
//! receive qualification, gating and event bookkeeping.
//!
//! Processor and ring calls, PCM copies and floating-point measurements are
//! performed by the caller, which hands the outcomes back here.

use vstd::prelude::*;
use crate::session::{
    receive_config, spec_receive_config_valid, spec_receive_setup, spec_transmit_config_valid, spec_transmit_setup,
    transmit_config, QualificationConfig, ReceiveConfig, ReceiveSetup, TransmitConfig, TransmitSetup, ABI_VERSION, BUSY,
    CANONICAL_CHANNELS, FRAME_COUNT_EXCEEDED, INVALID_ARGUMENT, NOT_READY, OK, PROVIDER_FAILED, UNSUPPORTED,
};
use crate::timer::{FRAMES_PER_MILLISECOND, NATIVE_SAMPLE_RATE_HZ};
use crate::session::{enter, lemma_publication_crossing, spec_on_grid, publication_due, push_edge, spec_next_deadline, spec_push, Event, EventKind, EventQueue, EventQueueModel};
use crate::receive_qualification::{self, SignalMode};
use crate::rx_cpu_saver::{self, RxCpuSaverInput, RxCpuSaverState};
use crate::receive_path::ProcessResult;

verus! {

/// Receive and transmit callbacks share these admission checks, in order:
/// a missing span or a zero frame count, a session not yet warmed, a
/// concurrent call, and a span beyond the preallocated maximum.
pub open spec fn spec_admit(warmed: bool, busy: bool, frame_count: u32, maximum_frames: u32, spans_present: bool) -> Result<(), i32> {
    if frame_count == 0 || !spans_present {
        Err(INVALID_ARGUMENT)
    } else if !warmed {
        Err(NOT_READY)
    } else if busy {
        Err(BUSY)
    } else if frame_count > maximum_frames {
        Err(FRAME_COUNT_EXCEEDED)
    } else {
        Ok(())
    }
}

/// Admit one receive span.  After the shared checks, non-finite input
/// (`input_finite` false) is refused.  An admitted span holds the worker's
/// busy flag for the caller to release; every refusal leaves it as it was.
pub fn receive_admit(
    warmed: bool,
    busy: &mut bool,
    frame_count: u32,
    maximum_frames: u32,
    spans_present: bool,
    input_finite: bool,
) -> (r: Result<(), i32>)
    ensures
        r == (match spec_admit(warmed, *old(busy), frame_count, maximum_frames, spans_present) {
            Ok(_) => if input_finite { Ok(()) } else { Err(INVALID_ARGUMENT) },
            Err(code) => Err(code),
        }),
        r is Ok ==> *final(busy),
        r is Err ==> *final(busy) == *old(busy),
{
    transmit_admit(warmed, busy, frame_count, maximum_frames, spans_present)?;
    if !input_finite {
        *busy = false;
        return Err(INVALID_ARGUMENT);
    }
    Ok(())
}

/// Admit one transmit span.  An admitted span holds the worker's busy flag
/// for the caller to release; every refusal leaves it as it was.
pub fn transmit_admit(warmed: bool, busy: &mut bool, frame_count: u32, maximum_frames: u32, spans_present: bool) -> (r: Result<(), i32>)
    ensures
        r == spec_admit(warmed, *old(busy), frame_count, maximum_frames, spans_present),
        r is Ok ==> *final(busy),
        r is Err ==> *final(busy) == *old(busy),
{
    if frame_count == 0 || !spans_present {
        return Err(INVALID_ARGUMENT);
    }
    if !warmed {
        return Err(NOT_READY);
    }
    if let Err(code) = enter(busy) {
        return Err(code);
    }
    if frame_count > maximum_frames {
        *busy = false;
        return Err(FRAME_COUNT_EXCEEDED);
    }
    Ok(())
}

/// Release a worker's busy flag at the end of an admitted call.
pub fn release(busy: &mut bool)
    ensures
        !*final(busy),
{
    *busy = false;
}

/// The local-receiver state a program ring returns with rendered PCM.
#[derive(Clone, Copy, Debug, PartialEq, Eq)]
pub struct RingResultCodes {
    /// Numeric boolean: the local receiver is keyed.
    pub receiver_keyed: u32,
    /// Decoded CTCSS table index, or -1.
    pub ctcss_decoded_index: i32,
    /// Numeric boolean: DCS is valid.
    pub dcs_valid: u32,
}

/// Whether a program-ring result is well formed.
pub fn ring_result_valid(ring: RingResultCodes) -> (ok: bool)
    ensures
        ok <==> ring.receiver_keyed <= 1 && ring.dcs_valid <= 1 && -1 <= ring.ctcss_decoded_index < 38,
{
    ring.receiver_keyed <= 1 && ring.dcs_valid <= 1 && -1 <= ring.ctcss_decoded_index
        && ring.ctcss_decoded_index < 38
}

/// Whether a rendered program span is accepted: the ring reported success,
/// every rendered sample was finite, and its result is well formed.  A ring
/// without a renderer renders silence and is always accepted.
pub fn ring_render_accepted(renderer_present: bool, status: i32, output_finite: bool, ring: RingResultCodes) -> (ok: bool)
    ensures
        ok <==> !renderer_present || (status == 0 && output_finite && ring.receiver_keyed <= 1
            && ring.dcs_valid <= 1 && -1 <= ring.ctcss_decoded_index < 38),
{
    !renderer_present || (status == 0 && output_finite && ring_result_valid(ring))
}

/// One prepared processor or ring that warm-up exercises.
#[derive(Clone, Copy, Debug, PartialEq, Eq, Structural)]
pub enum WarmPort {
    /// Receive deemphasis.
    ReceiveDeemphasis,
    /// Receive filter.
    ReceiveFilter,
    /// Receive noise reduction.
    ReceiveNoiseReduction,
    /// Receive dynamics.
    ReceiveDynamics,
    /// The CTCSS notch of one table tone.
    CtcssNotch(usize),
    /// The CTCSS tail-tone notch.
    CtcssTailNotch,
    /// Transmit program processing.
    TransmitProgram,
    /// Shaping of the normal DCS waveform.
    TransmitDcsNormal,
    /// Shaping of the DCS turn-off sine.
    TransmitDcsTurnoff,
    /// The program ring.
    ProgramRing,
}

/// What the caller does next during warm-up.
#[derive(Clone, Copy, Debug, PartialEq, Eq, Structural)]
pub enum WarmAction {
    /// Warm this port and run it once over silence, then report the outcome.
    Exercise(WarmPort),
    /// Warm-up is over with this result code.
    Finish(i32),
}

/// Warm-up progress of one session.
#[derive(Clone, Debug)]
pub struct WarmPlan {
    /// The session has completed warm-up.
    pub warmed: bool,
    /// Which table tones have a notch processor.
    pub notch_present: Vec<bool>,
    /// The tail-tone notch has a processor.
    pub tail_notch_present: bool,
    /// The program ring has a warm entry.
    pub ring_warm_present: bool,
    /// Ports already handed out in this warm-up.
    pub step: usize,
}

/// The notch ports present among the first `count` table tones.
pub open spec fn spec_notches(present: Seq<bool>, count: int) -> Seq<WarmPort>
    decreases count,
{
    if count <= 0 {
        Seq::empty()
    } else {
        let earlier = spec_notches(present, count - 1);
        if present[count - 1] { earlier.push(WarmPort::CtcssNotch((count - 1) as usize)) } else { earlier }
    }
}

/// The ports of a warm-up, in order: the four receive stages, each present
/// CTCSS notch and the tail notch, the transmit program, the two DCS
/// shaping filters, and the program ring when it has a warm entry.
pub open spec fn spec_warm_ports(plan: WarmPlan) -> Seq<WarmPort> {
    seq![WarmPort::ReceiveDeemphasis, WarmPort::ReceiveFilter, WarmPort::ReceiveNoiseReduction, WarmPort::ReceiveDynamics]
        + spec_notches(plan.notch_present@, plan.notch_present@.len() as int)
        + (if plan.tail_notch_present { seq![WarmPort::CtcssTailNotch] } else { Seq::empty() })
        + seq![WarmPort::TransmitProgram, WarmPort::TransmitDcsNormal, WarmPort::TransmitDcsTurnoff]
        + (if plan.ring_warm_present { seq![WarmPort::ProgramRing] } else { Seq::empty() })
}

/// The port at a position of the warm-up order, found without building it.
fn warm_port_at(plan: &WarmPlan, step: usize) -> (port: Option<WarmPort>)
    ensures
        step < spec_warm_ports(*plan).len() ==> port == Some(spec_warm_ports(*plan)[step as int]),
        step >= spec_warm_ports(*plan).len() ==> port is None,
        port is Some ==> step < usize::MAX,
{
    let ghost ports = spec_warm_ports(*plan);
    let mut notches: Vec<WarmPort> = Vec::new();
    let mut index: usize = 0;
    while index < plan.notch_present.len()
        invariant
            index <= plan.notch_present.len(),
            notches@ == spec_notches(plan.notch_present@, index as int),
        decreases plan.notch_present.len() - index,
    {
        if plan.notch_present[index] {
            notches.push(WarmPort::CtcssNotch(index));
        }
        index = index + 1;
    }
    let mut order: Vec<WarmPort> = Vec::new();
    order.push(WarmPort::ReceiveDeemphasis);
    order.push(WarmPort::ReceiveFilter);
    order.push(WarmPort::ReceiveNoiseReduction);
    order.push(WarmPort::ReceiveDynamics);
    let ghost head = order@;
    let mut k: usize = 0;
    while k < notches.len()
        invariant
            k <= notches.len(),
            order@ == head + notches@.subrange(0, k as int),
        decreases notches.len() - k,
    {
        order.push(notches[k]);
        k = k + 1;
        assert(order@ =~= head + notches@.subrange(0, k as int));
    }
    if plan.tail_notch_present {
        order.push(WarmPort::CtcssTailNotch);
    }
    order.push(WarmPort::TransmitProgram);
    order.push(WarmPort::TransmitDcsNormal);
    order.push(WarmPort::TransmitDcsTurnoff);
    if plan.ring_warm_present {
        order.push(WarmPort::ProgramRing);
    }
    assert(order@ =~= ports);
    if step < order.len() {
        Some(order[step])
    } else {
        None
    }
}

/// Advance warm-up with the outcome of the previous exercise (`Ok(())` on
/// the first call).  A warmed session finishes with OK without touching a
/// port; any failure finishes with PROVIDER_FAILED and leaves the session
/// not warmed; otherwise the next port in order is handed out, and after
/// the last one the session is warmed.
pub fn warm_step(plan: &mut WarmPlan, outcome: Result<(), i32>) -> (a: WarmAction)
    ensures
        old(plan).warmed ==> a == WarmAction::Finish(OK) && *final(plan) == *old(plan),
        !old(plan).warmed && outcome is Err ==> a == WarmAction::Finish(PROVIDER_FAILED)
            && !final(plan).warmed && final(plan).step == old(plan).step,
        !old(plan).warmed && outcome is Ok && old(plan).step < spec_warm_ports(*old(plan)).len() ==> a
            == WarmAction::Exercise(spec_warm_ports(*old(plan))[old(plan).step as int]) && !final(plan).warmed
            && final(plan).step == old(plan).step + 1,
        !old(plan).warmed && outcome is Ok && old(plan).step >= spec_warm_ports(*old(plan)).len() ==> a
            == WarmAction::Finish(OK) && final(plan).warmed && final(plan).step == old(plan).step,
        final(plan).notch_present@ == old(plan).notch_present@,
        final(plan).tail_notch_present == old(plan).tail_notch_present,
        final(plan).ring_warm_present == old(plan).ring_warm_present,
{
    if plan.warmed {
        return WarmAction::Finish(OK);
    }
    if outcome.is_err() {
        return WarmAction::Finish(PROVIDER_FAILED);
    }
    match warm_port_at(plan, plan.step) {
        Some(port) => {
            plan.step = plan.step + 1;
            WarmAction::Exercise(port)
        },
        None => {
            plan.warmed = true;
            WarmAction::Finish(OK)
        },
    }
}

/// Claim both workers for warm-up.  A warmed session needs neither
/// (`Ok(true)`); otherwise both busy flags are taken (`Ok(false)`), or
/// neither is when either worker is busy.
pub fn warm_admit(warmed: bool, receive_busy: &mut bool, transmit_busy: &mut bool) -> (r: Result<bool, i32>)
    ensures
        warmed ==> r == Ok::<bool, i32>(true) && *final(receive_busy) == *old(receive_busy)
            && *final(transmit_busy) == *old(transmit_busy),
        !warmed && (*old(receive_busy) || *old(transmit_busy)) ==> r == Err::<bool, i32>(BUSY)
            && *final(receive_busy) == *old(receive_busy) && *final(transmit_busy) == *old(transmit_busy),
        !warmed && !*old(receive_busy) && !*old(transmit_busy) ==> r == Ok::<bool, i32>(false)
            && *final(receive_busy) && *final(transmit_busy),
{
    if warmed {
        return Ok(true);
    }
    if *receive_busy || *transmit_busy {
        return Err(BUSY);
    }
    *receive_busy = true;
    *transmit_busy = true;
    Ok(false)
}


/// Largest receiver admission or post-transmit delay, in 20 ms blocks.
pub const MAX_DELAY_BLOCKS: u32 = 3_000;

/// One session configuration as plain values.  The caller supplies the
/// byte sizes of its configuration and port layouts next to the sizes the
/// caller's structures declare, and the outcome of its real-valued checks.
#[derive(Clone, Copy, Debug, PartialEq, Eq)]
pub struct SessionConfigCodes {
    /// Declared size of the configuration structure.
    pub struct_size: u32,
    /// Size of the configuration layout this session reads.
    pub config_layout_size: u32,
    /// Declared size of the port structure.
    pub ports_struct_size: u32,
    /// Size of the port layout this session reads.
    pub ports_layout_size: u32,
    /// Requested ABI revision.
    pub abi_version: u32,
    /// Generation tag of every event of the session.
    pub generation_id: u64,
    /// Native stream rate.
    pub native_sample_rate_hz: u32,
    /// Interleaved channels of native spans.
    pub interleaved_channels: u32,
    /// Largest receive span in frames.
    pub maximum_receive_frame_count: u32,
    /// Largest transmit span in frames.
    pub maximum_transmit_frame_count: u32,
    /// Periodic status interval in milliseconds.
    pub publication_interval_ms: u32,
    /// Native channel carrying the discriminator.
    pub receive_channel: u32,
    /// The receive input gain is finite and non-negative.
    pub receive_input_gain_valid: bool,
    /// Receive detector selectors.
    pub receive: ReceiveConfig,
    /// Receiver source and qualification selectors.
    pub qualification: QualificationConfig,
    /// Transmitter selectors.
    pub transmit: TransmitConfig,
}

/// A validated session: the decoded receive and transmit configurations
/// and the sizes and clocks of both workers.
pub struct SessionSetup {
    /// Generation tag of every event.
    pub generation_id: u64,
    /// Decoded receive configuration.
    pub receive: ReceiveSetup,
    /// Decoded transmitter configuration.
    pub transmit: TransmitSetup,
    /// Native channel carrying the discriminator.
    pub receive_channel: u32,
    /// Largest receive span in frames.
    pub maximum_receive_frames: u32,
    /// Largest transmit span in frames.
    pub maximum_transmit_frames: u32,
    /// Periodic status interval in native frames.
    pub publication_frames: u64,
    /// Voice is gated per native frame by the noise squelch.
    pub per_sample_noise_gate: bool,
    /// Native receive audio delay in frames.
    pub native_squelch_delay_frames: u32,
}

/// Whether a configuration is refused as malformed before its stream shape
/// is considered.
pub open spec fn spec_setup_malformed(config: SessionConfigCodes, tone_levels_finite: bool) -> bool {
    ||| config.struct_size < config.config_layout_size
    ||| config.ports_struct_size < config.ports_layout_size
    ||| config.abi_version != ABI_VERSION
    ||| config.maximum_receive_frame_count == 0
    ||| config.maximum_transmit_frame_count == 0
    ||| config.publication_interval_ms == 0
    ||| config.receive_channel >= CANONICAL_CHANNELS
    ||| !config.receive_input_gain_valid
    ||| config.qualification.rx_on_delay_blocks > MAX_DELAY_BLOCKS
    ||| config.qualification.tx_off_delay_blocks > MAX_DELAY_BLOCKS
    ||| !tone_levels_finite
}

/// Validate and decode one session configuration.
///
/// `gain` is the CTCSS decoder gain converted to Q8, `levels_valid` the
/// check that both transmit tone peaks are finite and within `[0, 1]`, and
/// `tone_levels_finite` the check that both outputs' tone gains and biases
/// are finite.  A malformed configuration is INVALID_ARGUMENT; then a rate
/// other than 48 kHz or a channel count other than two is UNSUPPORTED; then
/// the receive and transmit selectors are decoded.
pub fn session_setup(config: &SessionConfigCodes, gain: Result<i32, i32>, levels_valid: bool, tone_levels_finite: bool) -> (r: Result<SessionSetup, i32>)
    ensures
        spec_setup_malformed(*config, tone_levels_finite) ==> r == Err::<SessionSetup, i32>(INVALID_ARGUMENT),
        !spec_setup_malformed(*config, tone_levels_finite) && (config.native_sample_rate_hz != NATIVE_SAMPLE_RATE_HZ
            || config.interleaved_channels != CANONICAL_CHANNELS) ==> r == Err::<SessionSetup, i32>(UNSUPPORTED),
        !spec_setup_malformed(*config, tone_levels_finite) && config.native_sample_rate_hz == NATIVE_SAMPLE_RATE_HZ
            && config.interleaved_channels == CANONICAL_CHANNELS ==> ({
            &&& r is Ok <==> spec_receive_config_valid(config.receive, gain, config.qualification)
                && spec_transmit_config_valid(config.transmit, levels_valid)
            &&& r matches Err(code) ==> code == INVALID_ARGUMENT
        }),
        r matches Ok(s) ==> ({
            &&& spec_receive_setup(
                config.native_sample_rate_hz,
                config.maximum_receive_frame_count,
                config.receive,
                gain,
                config.qualification,
                s.receive,
            )
            &&& s.transmit == spec_transmit_setup(config.transmit)
            &&& s.generation_id == config.generation_id
            &&& s.receive_channel == config.receive_channel
            &&& s.maximum_receive_frames == config.maximum_receive_frame_count
            &&& s.maximum_transmit_frames == config.maximum_transmit_frame_count
            &&& s.publication_frames == config.publication_interval_ms * FRAMES_PER_MILLISECOND
            &&& s.per_sample_noise_gate == (config.qualification.carrier_source == 1)
            &&& s.native_squelch_delay_frames == config.receive.native_squelch_delay_frames
        }),
{
    if config.struct_size < config.config_layout_size
        || config.ports_struct_size < config.ports_layout_size
        || config.abi_version != ABI_VERSION
        || config.maximum_receive_frame_count == 0
        || config.maximum_transmit_frame_count == 0
        || config.publication_interval_ms == 0
        || config.receive_channel >= CANONICAL_CHANNELS
        || !config.receive_input_gain_valid
        || config.qualification.rx_on_delay_blocks > MAX_DELAY_BLOCKS
        || config.qualification.tx_off_delay_blocks > MAX_DELAY_BLOCKS
        || !tone_levels_finite
    {
        return Err(INVALID_ARGUMENT);
    }
    if config.native_sample_rate_hz != NATIVE_SAMPLE_RATE_HZ || config.interleaved_channels != CANONICAL_CHANNELS {
        return Err(UNSUPPORTED);
    }
    let receive = receive_config(
        config.native_sample_rate_hz,
        config.maximum_receive_frame_count,
        &config.receive,
        gain,
        &config.qualification,
    )?;
    let transmit = transmit_config(&config.transmit, levels_valid)?;
    let per_sample_noise_gate = receive.noise_squelch;
    Ok(SessionSetup {
        generation_id: config.generation_id,
        receive,
        transmit,
        receive_channel: config.receive_channel,
        maximum_receive_frames: config.maximum_receive_frame_count,
        maximum_transmit_frames: config.maximum_transmit_frame_count,
        publication_frames: config.publication_interval_ms as u64 * FRAMES_PER_MILLISECOND as u64,
        per_sample_noise_gate,
        native_squelch_delay_frames: config.receive.native_squelch_delay_frames,
    })
}


/// The hardware snapshot a receive call supplies (numeric booleans).
#[derive(Clone, Copy, Debug, PartialEq, Eq)]
pub struct ReceiveControls {
    /// Hardware carrier input.
    pub hardware_carrier: u32,
    /// Parallel-port carrier input.
    pub parallel_carrier: u32,
    /// Hardware CTCSS input.
    pub hardware_subaudible: u32,
    /// Parallel-port CTCSS input.
    pub parallel_subaudible: u32,
    /// Subaudible override for this call.
    pub subaudible_override: u32,
}

/// The receive worker's policy, qualification and bookkeeping state.
#[derive(Clone, Copy, Debug, PartialEq, Eq)]
pub struct ReceiveWorker {
    /// Receiver qualification policy.
    pub qualification: receive_qualification::Config,
    /// Receiver qualification state.
    pub qualification_state: receive_qualification::State,
    /// Receiver CPU saver enabled.
    pub cpu_saver_enabled: bool,
    /// Receiver CPU saver state.
    pub cpu_saver_state: RxCpuSaverState,
    /// Voice is gated per native frame by the noise squelch.
    pub per_sample_noise_gate: bool,
    /// CTCSS decoding configured.
    pub ctcss_enabled: bool,
    /// DCS decoding configured.
    pub dcs_enabled: bool,
    /// Periodic status interval in native frames.
    pub publication_interval_frames: u64,
    /// Next periodic status deadline.
    pub next_publication_frame: u64,
    /// Native frames consumed so far.
    pub sample_index: u64,
    /// Carrier indication last published.
    pub previous_carrier: bool,
    /// Subaudible indication last published.
    pub previous_subaudible: bool,
    /// Receiver keying last published.
    pub previous_keyed: bool,
    /// CTCSS index last published.
    pub previous_ctcss: i32,
    /// DCS validity last published.
    pub previous_dcs: bool,
}

/// How the voice path is gated for a span.
#[derive(Clone, Copy, Debug, PartialEq, Eq, Structural)]
pub enum VoiceGate {
    /// Mute each native frame whose DSP carrier gate is closed.
    PerFrame,
    /// Mute the whole span: no carrier.
    Mute,
    /// Pass the span.
    Pass,
}

/// The decisions taken for one receive span once the detector has run.
#[derive(Clone, Copy, Debug, PartialEq, Eq)]
pub struct ReceiveDecision {
    /// Qualified receiver indications.
    pub qualification: receive_qualification::Output,
    /// Whether the detector's voice stages run on the next span.
    pub voice_processing_active: bool,
    /// Voice gating for this span.
    pub gate: VoiceGate,
    /// Noise reduction is bypassed (and dynamics skipped) for this span.
    pub bypass_noise_reduction: bool,
}

/// The bookkeeping result of one completed receive span.
#[derive(Clone, Copy, Debug, PartialEq, Eq)]
pub struct ReceiveCommit {
    /// First native frame of the span.
    pub first_sample_index: u64,
    /// A periodic status deadline was reached.
    pub periodic_status_due: bool,
    /// Decoded CTCSS index, or -1.
    pub ctcss_decoded_index: i32,
    /// DCS validity.
    pub dcs_valid: bool,
    /// Latest RSSI result.
    pub rssi_peak: i16,
    /// An RSSI window completed.
    pub rssi_updated: bool,
}

impl ReceiveWorker {
    /// Internal consistency of a worker.
    pub open spec fn wf(&self) -> bool {
        &&& self.cpu_saver_state.halted <= 1
        &&& self.publication_interval_frames > 0
    }

    /// The signaling mode the configured decoders select.
    pub open spec fn spec_signal_mode(&self) -> SignalMode {
        if self.dcs_enabled { SignalMode::Dcs } else if self.ctcss_enabled { SignalMode::Ctcss } else { SignalMode::Inactive }
    }

    /// The qualification policy of one call: the per-call subaudible
    /// override is ORed into the configured one.
    pub open spec fn spec_call_policy(&self, controls: ReceiveControls) -> receive_qualification::Config {
        receive_qualification::Config {
            subaudible_override: self.qualification.subaudible_override || controls.subaudible_override != 0,
            ..self.qualification
        }
    }

    /// The qualification inputs of one call.
    pub open spec fn spec_call_inputs(&self, controls: ReceiveControls, detected: ProcessResult, tx_ptt: bool) -> receive_qualification::Inputs {
        receive_qualification::Inputs {
            hardware_carrier: controls.hardware_carrier != 0,
            parallel_carrier: controls.parallel_carrier != 0,
            dsp_carrier: detected.carrier_detect,
            hardware_subaudible: controls.hardware_subaudible != 0,
            parallel_subaudible: controls.parallel_subaudible != 0,
            dcs_receive_enabled: self.dcs_enabled,
            dcs_valid: detected.dcs_valid,
            ctcss_receive_enabled: self.ctcss_enabled,
            ctcss_decoder_available: true,
            ctcss_decoded: detected.ctcss_decoded >= 0,
            signal_mode: self.spec_signal_mode(),
            tx_ptt_out: tx_ptt,
            txrx_blanking_active: detected.blanked_native_frames != 0,
        }
    }
}

/// The edge events of a span, in order: carrier, subaudible, keying, CTCSS
/// and DCS, each when it differs from the last published value.
pub open spec fn spec_receive_events(
    worker: ReceiveWorker,
    q: receive_qualification::Output,
    decoded: i32,
    dcs_valid: bool,
    generation_id: u64,
    sample_index: u64,
) -> Seq<Event> {
    let edge = |kind: EventKind, value: i32| Event { generation_id, sample_index, kind: kind.spec_code(), value };
    let carrier = if worker.previous_carrier != q.carrier_active {
        seq![edge(EventKind::Carrier, if q.carrier_active { 1i32 } else { 0i32 })]
    } else {
        Seq::empty()
    };
    let subaudible = if worker.previous_subaudible != q.subaudible_active {
        seq![edge(EventKind::Subaudible, if q.subaudible_active { 1i32 } else { 0i32 })]
    } else {
        Seq::empty()
    };
    let keyed = if worker.previous_keyed != q.rx_keyed {
        seq![edge(EventKind::ReceiverKeyed, if q.rx_keyed { 1i32 } else { 0i32 })]
    } else {
        Seq::empty()
    };
    let ctcss = if worker.previous_ctcss != decoded { seq![edge(EventKind::CtcssDecode, decoded)] } else { Seq::empty() };
    let dcs = if worker.previous_dcs != dcs_valid {
        seq![edge(EventKind::DcsDecode, if dcs_valid { 1i32 } else { 0i32 })]
    } else {
        Seq::empty()
    };
    carrier + subaudible + keyed + ctcss + dcs
}

/// Offer each event of a sequence in order.
pub open spec fn spec_offer_all(model: EventQueueModel, events: Seq<Event>) -> EventQueueModel
    decreases events.len(),
{
    if events.len() == 0 {
        model
    } else {
        spec_offer_all(spec_push(model, events[0]), events.drop_first())
    }
}

/// Offering a sequence then one more event offers the longer sequence.
proof fn lemma_offer_push(model: EventQueueModel, events: Seq<Event>, event: Event)
    ensures
        spec_offer_all(model, events.push(event)) == spec_push(spec_offer_all(model, events), event),
    decreases events.len(),
{
    if events.len() == 0 {
        assert(events.push(event).drop_first() =~= Seq::<Event>::empty());
        assert(events.push(event)[0] == event);
        assert(spec_offer_all(spec_push(model, event), Seq::<Event>::empty()) == spec_push(model, event));
    } else {
        assert(events.push(event).drop_first() =~= events.drop_first().push(event));
        assert(events.push(event)[0] == events[0]);
        lemma_offer_push(spec_push(model, events[0]), events.drop_first(), event);
    }
}

/// Push one edge when it changed, extending the ghost record of pushes.
fn push_if(
    events: &mut EventQueue,
    changed: bool,
    generation_id: u64,
    sample_index: u64,
    kind: EventKind,
    value: i32,
    Ghost(start): Ghost<EventQueueModel>,
    Ghost(pushed): Ghost<Seq<Event>>,
) -> (now: Ghost<Seq<Event>>)
    requires
        old(events).wf(),
        old(events)@ == spec_offer_all(start, pushed),
    ensures
        final(events).wf(),
        now@ == pushed + if changed {
            seq![Event { generation_id, sample_index, kind: kind.spec_code(), value }]
        } else {
            Seq::<Event>::empty()
        },
        final(events)@ == spec_offer_all(start, now@),
{
    if changed {
        let ghost event = Event { generation_id, sample_index, kind: kind.spec_code(), value };
        push_edge(events, generation_id, sample_index, kind, value);
        proof {
            lemma_offer_push(start, pushed, event);
            assert(pushed + seq![event] =~= pushed.push(event));
        }
        Ghost(pushed.push(event))
    } else {
        assert(pushed + Seq::<Event>::empty() =~= pushed);
        Ghost(pushed)
    }
}

/// Queue the edge events of a span in order.
fn push_receive_events(
    events: &mut EventQueue,
    worker: &ReceiveWorker,
    q: receive_qualification::Output,
    decoded: i32,
    dcs_valid: bool,
    generation_id: u64,
    sample_index: u64,
)
    requires
        old(events).wf(),
    ensures
        final(events).wf(),
        final(events)@ == spec_offer_all(
            old(events)@, spec_receive_events(*worker, q, decoded, dcs_valid, generation_id, sample_index)),
{
    let ghost start = events@;
    let pushed = Ghost(Seq::<Event>::empty());
    let pushed = push_if(events, worker.previous_carrier != q.carrier_active, generation_id, sample_index,
        EventKind::Carrier, if q.carrier_active { 1 } else { 0 }, Ghost(start), pushed);
    let pushed = push_if(events, worker.previous_subaudible != q.subaudible_active, generation_id, sample_index,
        EventKind::Subaudible, if q.subaudible_active { 1 } else { 0 }, Ghost(start), pushed);
    let pushed = push_if(events, worker.previous_keyed != q.rx_keyed, generation_id, sample_index,
        EventKind::ReceiverKeyed, if q.rx_keyed { 1 } else { 0 }, Ghost(start), pushed);
    let pushed = push_if(events, worker.previous_ctcss != decoded, generation_id, sample_index,
        EventKind::CtcssDecode, decoded, Ghost(start), pushed);
    let pushed = push_if(events, worker.previous_dcs != dcs_valid, generation_id, sample_index,
        EventKind::DcsDecode, if dcs_valid { 1 } else { 0 }, Ghost(start), pushed);
    assert(pushed@ =~= spec_receive_events(*worker, q, decoded, dcs_valid, generation_id, sample_index));
}

/// The qualification policy and inputs of one call.
fn call_qualification(worker: &ReceiveWorker, controls: ReceiveControls, detected: ProcessResult, tx_ptt: bool)
    -> (r: (receive_qualification::Config, receive_qualification::Inputs))
    ensures
        r.0 == worker.spec_call_policy(controls),
        r.1 == worker.spec_call_inputs(controls, detected, tx_ptt),
{
    let signal_mode = if worker.dcs_enabled {
        SignalMode::Dcs
    } else if worker.ctcss_enabled {
        SignalMode::Ctcss
    } else {
        SignalMode::Inactive
    };
    let mut policy = worker.qualification;
    policy.subaudible_override = policy.subaudible_override || controls.subaudible_override != 0;
    let inputs = receive_qualification::Inputs {
        hardware_carrier: controls.hardware_carrier != 0,
        parallel_carrier: controls.parallel_carrier != 0,
        dsp_carrier: detected.carrier_detect,
        hardware_subaudible: controls.hardware_subaudible != 0,
        parallel_subaudible: controls.parallel_subaudible != 0,
        dcs_receive_enabled: worker.dcs_enabled,
        dcs_valid: detected.dcs_valid,
        ctcss_receive_enabled: worker.ctcss_enabled,
        ctcss_decoder_available: true,
        ctcss_decoded: detected.ctcss_decoded >= 0,
        signal_mode,
        tx_ptt_out: tx_ptt,
        txrx_blanking_active: detected.blanked_native_frames != 0,
    };
    (policy, inputs)
}

/// Advance qualification and the CPU saver by one span.
#[verifier::rlimit(30)]
fn qualify_span(
    worker: &mut ReceiveWorker,
    controls: ReceiveControls,
    detected: ProcessResult,
    frame_count: u32,
    tx_ptt: bool,
) -> (q: receive_qualification::Output)
    requires
        old(worker).wf(),
    ensures
        ({
            let w = *old(worker);
            let state = receive_qualification::spec_advance(
                w.spec_call_policy(controls), w.spec_call_inputs(controls, detected, tx_ptt), frame_count,
                w.qualification_state);
            let halted = w.cpu_saver_enabled && !state.carrier_active && w.spec_signal_mode()
                == SignalMode::Inactive && !tx_ptt;
            &&& q == receive_qualification::Output {
                carrier_active: state.carrier_active,
                subaudible_active: state.subaudible_active,
                rx_keyed: state.rx_keyed,
            }
            &&& final(worker).qualification_state == state
            &&& final(worker).cpu_saver_state.halted == (if halted { 1u32 } else { 0u32 })
            &&& final(worker).cpu_saver_state.action == rx_cpu_saver::spec_action(
                w.cpu_saver_state.halted, final(worker).cpu_saver_state.halted)
            &&& *final(worker) == (ReceiveWorker {
                qualification_state: final(worker).qualification_state,
                cpu_saver_state: final(worker).cpu_saver_state,
                ..w
            })
        }),
{
    let (policy, inputs) = call_qualification(worker, controls, detected, tx_ptt);
    let mode_inactive = !worker.dcs_enabled && !worker.ctcss_enabled;
    let q = receive_qualification::advance(&policy, &inputs, frame_count, &mut worker.qualification_state);
    let saver_input = RxCpuSaverInput {
        enabled: if worker.cpu_saver_enabled { 1 } else { 0 },
        carrier_detect: if q.carrier_active { 1 } else { 0 },
        signal_mode_null: if mode_inactive { 1 } else { 0 },
        tx_ptt_in: 0,
        tx_ptt_out: if tx_ptt { 1 } else { 0 },
    };
    let advanced = rx_cpu_saver::advance(&saver_input, &mut worker.cpu_saver_state);
    assert(advanced is Ok);
    q
}

/// Decide one receive span after the detector ran.
///
/// Qualification advances by the span with the per-call override ORed into
/// the configured one; the CPU saver follows the qualified carrier and the
/// logical PTT and decides whether the detector's voice stages run next;
/// the voice path is gated per native frame under the noise squelch, muted
/// without carrier, or passed; noise reduction is bypassed while the CPU
/// saver is on and the receiver is not keyed.
pub fn receive_decide(
    worker: &mut ReceiveWorker,
    controls: ReceiveControls,
    detected: ProcessResult,
    frame_count: u32,
    tx_ptt: bool,
) -> (d: ReceiveDecision)
    requires
        old(worker).wf(),
    ensures
        final(worker).wf(),
        ({
            let w = *old(worker);
            let state = receive_qualification::spec_advance(
                w.spec_call_policy(controls), w.spec_call_inputs(controls, detected, tx_ptt), frame_count,
                w.qualification_state);
            let q = receive_qualification::Output {
                carrier_active: state.carrier_active,
                subaudible_active: state.subaudible_active,
                rx_keyed: state.rx_keyed,
            };
            let halted = w.cpu_saver_enabled && !q.carrier_active && w.spec_signal_mode() == SignalMode::Inactive
                && !tx_ptt;
            &&& d.qualification == q
            &&& final(worker).qualification_state == state
            &&& final(worker).cpu_saver_state.halted == (if halted { 1u32 } else { 0u32 })
            &&& final(worker).cpu_saver_state.action == rx_cpu_saver::spec_action(
                w.cpu_saver_state.halted, final(worker).cpu_saver_state.halted)
            &&& d.voice_processing_active == !halted
            &&& d.gate == (if w.per_sample_noise_gate { VoiceGate::PerFrame } else if !q.carrier_active {
                VoiceGate::Mute
            } else {
                VoiceGate::Pass
            })
            &&& d.bypass_noise_reduction == (w.cpu_saver_enabled && !q.rx_keyed)
            &&& *final(worker) == (ReceiveWorker {
                qualification_state: final(worker).qualification_state,
                cpu_saver_state: final(worker).cpu_saver_state,
                ..w
            })
        }),
{
    let q = qualify_span(worker, controls, detected, frame_count, tx_ptt);
    let voice_processing_active = worker.cpu_saver_state.halted == 0;
    let gate = if worker.per_sample_noise_gate {
        VoiceGate::PerFrame
    } else if !q.carrier_active {
        VoiceGate::Mute
    } else {
        VoiceGate::Pass
    };
    let bypass_noise_reduction = worker.cpu_saver_enabled && !q.rx_keyed;
    ReceiveDecision { qualification: q, voice_processing_active, gate, bypass_noise_reduction }
}

/// Complete one receive span whose processors all succeeded.
///
/// The sample index advances by the span, the periodic publication
/// deadline is checked against the new index, and the five edge events
/// (carrier, subaudible, keying, CTCSS, DCS) are queued in that order at the
/// new index, each when it differs from the last published value, which it
/// then becomes.
pub fn receive_commit(
    worker: &mut ReceiveWorker,
    q: receive_qualification::Output,
    detected: ProcessResult,
    frame_count: u32,
    events: &mut EventQueue,
    generation_id: u64,
) -> (c: ReceiveCommit)
    requires
        old(worker).wf(),
        old(events).wf(),
        old(worker).sample_index + frame_count < u64::MAX,
    ensures
        final(worker).wf(),
        final(events).wf(),
        ({
            let w = *old(worker);
            let sample_index = (w.sample_index + frame_count) as u64;
            let decoded = detected.ctcss_decoded as i32;
            let due = sample_index >= w.next_publication_frame;
            &&& c.first_sample_index == w.sample_index
            &&& final(worker).sample_index == sample_index
            &&& c.periodic_status_due == due
            &&& !due ==> final(worker).next_publication_frame == w.next_publication_frame
            &&& due ==> final(worker).next_publication_frame == spec_next_deadline(
                sample_index as int, w.next_publication_frame as int, w.publication_interval_frames as int)
            &&& final(events)@ == spec_offer_all(
                old(events)@, spec_receive_events(w, q, decoded, detected.dcs_valid, generation_id, sample_index))
            &&& spec_on_grid(w.sample_index as int, w.next_publication_frame as int, w.publication_interval_frames as int)
                && ((sample_index as int) / (w.publication_interval_frames as int) + 1) * w.publication_interval_frames
                <= u64::MAX ==> {
                &&& c.periodic_status_due <==> exists|k: int| k >= 1 && w.sample_index < #[trigger] (k
                    * w.publication_interval_frames) <= sample_index
                &&& spec_on_grid(sample_index as int, final(worker).next_publication_frame as int,
                    w.publication_interval_frames as int)
            }
            &&& c.ctcss_decoded_index == decoded
            &&& c.dcs_valid == detected.dcs_valid
            &&& c.rssi_peak == detected.rssi_peak
            &&& c.rssi_updated == detected.rssi_updated
            &&& *final(worker) == (ReceiveWorker {
                sample_index: final(worker).sample_index,
                next_publication_frame: final(worker).next_publication_frame,
                previous_carrier: q.carrier_active,
                previous_subaudible: q.subaudible_active,
                previous_keyed: q.rx_keyed,
                previous_ctcss: decoded,
                previous_dcs: detected.dcs_valid,
                ..w
            })
        }),
{
    let first_sample_index = worker.sample_index;
    worker.sample_index = worker.sample_index + frame_count as u64;
    let due = publication_due(worker.sample_index, &mut worker.next_publication_frame, worker.publication_interval_frames);
    proof {
        if spec_on_grid(first_sample_index as int, old(worker).next_publication_frame as int,
            worker.publication_interval_frames as int) && ((worker.sample_index as int)
            / (worker.publication_interval_frames as int) + 1) * worker.publication_interval_frames <= u64::MAX {
            lemma_publication_crossing(first_sample_index as int, frame_count as int,
                old(worker).next_publication_frame as int, worker.publication_interval_frames as int);
        }
    }
    let decoded = detected.ctcss_decoded as i32;
    let sample_index = worker.sample_index;
    push_receive_events(events, worker, q, decoded, detected.dcs_valid, generation_id, sample_index);
    worker.previous_carrier = q.carrier_active;
    worker.previous_subaudible = q.subaudible_active;
    worker.previous_keyed = q.rx_keyed;
    worker.previous_ctcss = decoded;
    worker.previous_dcs = detected.dcs_valid;
    ReceiveCommit {
        first_sample_index,
        periodic_status_due: due,
        ctcss_decoded_index: decoded,
        dcs_valid: detected.dcs_valid,
        rssi_peak: detected.rssi_peak,
        rssi_updated: detected.rssi_updated,
    }
}

/// Report a processor or ring failure: the failure count grows (wrapping)
/// and a provider-failure event is queued at the current sample index.
pub fn report_provider_failure(events: &mut EventQueue, failures: &mut u64, generation_id: u64, sample_index: u64)
    requires
        old(events).wf(),
    ensures
        final(events).wf(),
        final(events)@ == spec_push(
            old(events)@,
            Event { generation_id, sample_index, kind: EventKind::ProviderFailure.spec_code(), value: 1 },
        ),
        *final(failures) == (if *old(failures) == u64::MAX { 0 } else { (*old(failures) + 1) as u64 }),
{
    *failures = failures.wrapping_add(1);
    push_edge(events, generation_id, sample_index, EventKind::ProviderFailure, 1);
}

/// A processing stage of a receive span after the detector, in order.
#[derive(Clone, Copy, Debug, PartialEq, Eq, Structural)]
pub enum ReceiveStage {
    /// Deemphasis of the delayed voice.
    Deemphasis,
    /// Gate, gain, and the CTCSS and voice filters.
    Filters,
    /// Noise reduction.
    NoiseReduction,
    /// Dynamics.
    Dynamics,
    /// Noise reduction told to pass the span by.
    BypassNoiseReduction,
}

/// What the caller does next within a span.
#[derive(Clone, Copy, Debug, PartialEq, Eq, Structural)]
pub enum StageAction<S> {
    /// Run this stage, then report its outcome.
    Run(S),
    /// Stop: report a provider failure and return this code.
    Fail(i32),
    /// Every stage ran; commit the span.
    Complete,
}

/// The receive stages of a span: deemphasis and the filters, then either
/// noise reduction and dynamics or, while noise reduction is bypassed, the
/// bypass alone.
pub open spec fn spec_receive_stages(bypass: bool) -> Seq<ReceiveStage> {
    if bypass {
        seq![ReceiveStage::Deemphasis, ReceiveStage::Filters, ReceiveStage::BypassNoiseReduction]
    } else {
        seq![ReceiveStage::Deemphasis, ReceiveStage::Filters, ReceiveStage::NoiseReduction, ReceiveStage::Dynamics]
    }
}

/// Advance through the receive stages with the outcome of the previous one
/// (`Ok(())` before the first): a failure stops the span with
/// PROVIDER_FAILED; otherwise the next stage is handed out, and after the
/// last one the span is complete.
pub fn receive_step(done: &mut usize, bypass: bool, outcome: Result<(), i32>) -> (a: StageAction<ReceiveStage>)
    ensures
        outcome is Err ==> a == StageAction::<ReceiveStage>::Fail(PROVIDER_FAILED) && *final(done) == *old(done),
        outcome is Ok && *old(done) < spec_receive_stages(bypass).len() ==> a == StageAction::Run(
            spec_receive_stages(bypass)[*old(done) as int]) && *final(done) == *old(done) + 1,
        outcome is Ok && *old(done) >= spec_receive_stages(bypass).len() ==> a == StageAction::<ReceiveStage>::Complete
            && *final(done) == *old(done),
{
    if outcome.is_err() {
        return StageAction::Fail(PROVIDER_FAILED);
    }
    let stage = if *done == 0 {
        ReceiveStage::Deemphasis
    } else if *done == 1 {
        ReceiveStage::Filters
    } else if *done == 2 {
        if bypass { ReceiveStage::BypassNoiseReduction } else { ReceiveStage::NoiseReduction }
    } else if *done == 3 && !bypass {
        ReceiveStage::Dynamics
    } else {
        return StageAction::Complete;
    };
    *done = *done + 1;
    StageAction::Run(stage)
}

/// The CTCSS notch for a span's filtered voice: the tail-tone notch while
/// the tail tone is active, else the notch of the decoded tone; either only
/// when it has a processor.  `notch_present` tells which table tones have
/// one.
pub fn select_notch(decoded: i16, tail_tone_active: bool, notch_present: &[bool], tail_present: bool) -> (notch: Option<
    WarmPort,
>)
    ensures
        notch == (if tail_tone_active {
            if tail_present { Some(WarmPort::CtcssTailNotch) } else { None }
        } else if 0 <= decoded < notch_present@.len() && notch_present@[decoded as int] {
            Some(WarmPort::CtcssNotch(decoded as usize))
        } else {
            None
        }),
{
    if tail_tone_active {
        return if tail_present { Some(WarmPort::CtcssTailNotch) } else { None };
    }
    if decoded >= 0 && (decoded as usize) < notch_present.len() && notch_present[decoded as usize] {
        Some(WarmPort::CtcssNotch(decoded as usize))
    } else {
        None
    }
}

/// A stage of a transmit span, in order.
#[derive(Clone, Copy, Debug, PartialEq, Eq, Structural)]
pub enum TransmitStage {
    /// Consume program audio and the remote receiver's state from the ring.
    RenderRing,
    /// Program processing.
    ProcessProgram,
    /// The signaling tick, fed with the ring's receiver state.
    TickSignaling,
    /// Shaping of the normal DCS waveform.
    ShapeDcsNormal,
    /// Shaping of the DCS turn-off sine.
    ShapeDcsTurnoff,
}

/// The transmit stages of a span: the program ring is consumed before the
/// signaling tick that reads its result, and the normal DCS waveform and
/// the turn-off sine are shaped by distinct ports after it.
pub open spec fn spec_transmit_stages() -> Seq<TransmitStage> {
    seq![
        TransmitStage::RenderRing,
        TransmitStage::ProcessProgram,
        TransmitStage::TickSignaling,
        TransmitStage::ShapeDcsNormal,
        TransmitStage::ShapeDcsTurnoff,
    ]
}

/// Advance through the transmit stages with the outcome of the previous one
/// (`Ok(())` before the first).  A refused signaling tick stops the span
/// with INVALID_ARGUMENT; a failure of any other stage stops it with
/// PROVIDER_FAILED; after the last stage the span is complete.
pub fn transmit_step(done: &mut usize, outcome: Result<(), i32>) -> (a: StageAction<TransmitStage>)
    ensures
        outcome is Err && 0 < *old(done) <= spec_transmit_stages().len()
            && spec_transmit_stages()[*old(done) - 1] == TransmitStage::TickSignaling
            ==> a == StageAction::<TransmitStage>::Fail(INVALID_ARGUMENT) && *final(done) == *old(done),
        outcome is Err && !(0 < *old(done) <= spec_transmit_stages().len()
            && spec_transmit_stages()[*old(done) - 1] == TransmitStage::TickSignaling)
            ==> a == StageAction::<TransmitStage>::Fail(PROVIDER_FAILED) && *final(done) == *old(done),
        outcome is Ok && *old(done) < spec_transmit_stages().len() ==> a == StageAction::Run(
            spec_transmit_stages()[*old(done) as int]) && *final(done) == *old(done) + 1,
        outcome is Ok && *old(done) >= spec_transmit_stages().len() ==> a
            == StageAction::<TransmitStage>::Complete && *final(done) == *old(done),
{
    if outcome.is_err() {
        return if *done == 3 { StageAction::Fail(INVALID_ARGUMENT) } else { StageAction::Fail(PROVIDER_FAILED) };
    }
    let stage = if *done == 0 {
        TransmitStage::RenderRing
    } else if *done == 1 {
        TransmitStage::ProcessProgram
    } else if *done == 2 {
        TransmitStage::TickSignaling
    } else if *done == 3 {
        TransmitStage::ShapeDcsNormal
    } else if *done == 4 {
        TransmitStage::ShapeDcsTurnoff
    } else {
        return StageAction::Complete;
    };
    *done = *done + 1;
    StageAction::Run(stage)
}

/// One rendering span of a signaling tick, as plain values.
#[derive(Clone, Copy, Debug, PartialEq, Eq)]
pub struct RenderSpanCodes {
    /// First native frame of the span.
    pub frame_offset: u32,
    /// Native frames in the span.
    pub frame_count: u32,
    /// The transmitter is keyed during the span.
    pub logical_ptt: bool,
}

/// Whether native frame `index` lies in a keyed rendering span.
pub open spec fn spec_frame_keyed(spans: Seq<RenderSpanCodes>, index: int) -> bool {
    exists|k: int| 0 <= k < spans.len() && #[trigger] spans[k].logical_ptt
        && spans[k].frame_offset <= index < spans[k].frame_offset + spans[k].frame_count
}

/// The native frames of a transmit span that carry output: those inside a
/// keyed rendering span; every other frame stays silent.  Span frames past
/// the end of the span carry nothing.
pub fn transmit_active_frames(spans: &[RenderSpanCodes], frame_count: u32) -> (active: Vec<bool>)
    ensures
        active@.len() == frame_count,
        forall|i: int| 0 <= i < frame_count ==> active@[i] == spec_frame_keyed(spans@, i),
{
    let mut active: Vec<bool> = Vec::new();
    let mut i: u32 = 0;
    while i < frame_count
        invariant
            i <= frame_count,
            active@.len() == i,
            forall|j: int| 0 <= j < i ==> !active@[j],
        decreases frame_count - i,
    {
        active.push(false);
        i = i + 1;
    }
    let mut k: usize = 0;
    while k < spans.len()
        invariant
            k <= spans@.len(),
            active@.len() == frame_count,
            forall|j: int| 0 <= j < frame_count ==> active@[j] == spec_frame_keyed(spans@.subrange(0, k as int), j),
        decreases spans@.len() - k,
    {
        let span = spans[k];
        if span.logical_ptt {
            let span_end: u64 = span.frame_offset as u64 + span.frame_count as u64;
            let end: u32 = if span_end < frame_count as u64 { span_end as u32 } else { frame_count };
            let mut f: u32 = if span.frame_offset < end { span.frame_offset } else { end };
            while f < end
                invariant
                    f <= end,
                    end <= frame_count,
                    end as int == (if span.frame_offset + span.frame_count < frame_count {
                        span.frame_offset + span.frame_count
                    } else {
                        frame_count as int
                    }),
                    span.frame_offset < end ==> span.frame_offset <= f,
                    span.frame_offset >= end ==> f == end,
                    active@.len() == frame_count,
                    forall|j: int| 0 <= j < frame_count ==> active@[j] == (spec_frame_keyed(spans@.subrange(0, k as int), j)
                        || (span.frame_offset <= j < f)),
                decreases end - f,
            {
                let ghost before = active@;
                active.set(f as usize, true);
                assert forall|j: int| 0 <= j < frame_count implies active@[j] == (spec_frame_keyed(
                    spans@.subrange(0, k as int), j) || (span.frame_offset <= j < f + 1)) by {
                    if j != f {
                        assert(active@[j] == before[j]);
                    }
                }
                f = f + 1;
            }
        }
        proof {
            let next = spans@.subrange(0, k + 1);
            assert forall|j: int| 0 <= j < frame_count implies active@[j] == spec_frame_keyed(next, j) by {
                let prev = spans@.subrange(0, k as int);
                if spec_frame_keyed(prev, j) {
                    let w = choose|m: int| 0 <= m < prev.len() && #[trigger] prev[m].logical_ptt
                        && prev[m].frame_offset <= j < prev[m].frame_offset + prev[m].frame_count;
                    assert(next[w] == prev[w]);
                }
                if spec_frame_keyed(next, j) {
                    let w = choose|m: int| 0 <= m < next.len() && #[trigger] next[m].logical_ptt
                        && next[m].frame_offset <= j < next[m].frame_offset + next[m].frame_count;
                    if w < k {
                        assert(prev[w] == next[w]);
                    }
                }
                if span.logical_ptt && span.frame_offset <= j < span.frame_offset + span.frame_count {
                    assert(next[k as int] == span);
                }
            }
        }
        k = k + 1;
    }
    assert(spans@.subrange(0, spans@.len() as int) =~= spans@);
    active
}

/// The transmit worker's bookkeeping state.
#[derive(Clone, Copy, Debug, PartialEq, Eq)]
pub struct TransmitWorker {
    /// Periodic status interval in native frames.
    pub publication_interval_frames: u64,
    /// Next periodic status deadline.
    pub next_publication_frame: u64,
    /// Native frames produced so far.
    pub sample_index: u64,
}

impl TransmitWorker {
    /// Internal consistency of a worker.
    pub open spec fn wf(&self) -> bool {
        self.publication_interval_frames > 0
    }
}

/// What a signaling tick reports for the session to publish.
#[derive(Clone, Copy, Debug, PartialEq, Eq)]
pub struct SignalingOutcome {
    /// Logical PTT after the tick.
    pub logical_ptt: bool,
    /// Logical PTT rose during the tick.
    pub logical_ptt_raised: bool,
    /// Logical PTT fell during the tick.
    pub logical_ptt_released: bool,
    /// The selected transmit CTCSS changed.
    pub ctcss_status_event: bool,
    /// The selected transmit CTCSS frequency in tenths of a hertz.
    pub ctcss_tenths_hz: i32,
    /// Receiver blanking to arm, in milliseconds.
    pub receiver_blanking_ms: Option<i32>,
}

/// The bookkeeping result of one completed transmit span.
#[derive(Clone, Copy, Debug, PartialEq, Eq)]
pub struct TransmitCommit {
    /// First native frame of the span.
    pub first_sample_index: u64,
    /// A periodic status deadline was reached.
    pub periodic_status_due: bool,
}

/// The transmit events of a span, in order: a PTT edge, a CTCSS change and
/// a receiver blanking request, each when the tick reported it.
pub open spec fn spec_transmit_events(outcome: SignalingOutcome, generation_id: u64, sample_index: u64) -> Seq<Event> {
    let edge = |kind: EventKind, value: i32| Event { generation_id, sample_index, kind: kind.spec_code(), value };
    let ptt = if outcome.logical_ptt_raised || outcome.logical_ptt_released {
        seq![edge(EventKind::Ptt, if outcome.logical_ptt { 1i32 } else { 0i32 })]
    } else {
        Seq::empty()
    };
    let ctcss = if outcome.ctcss_status_event {
        seq![edge(EventKind::CtcssTransmit, outcome.ctcss_tenths_hz)]
    } else {
        Seq::empty()
    };
    let blanking = match outcome.receiver_blanking_ms {
        Some(ms) => seq![edge(EventKind::ReceiverBlanking, ms)],
        None => Seq::empty(),
    };
    ptt + ctcss + blanking
}

/// Complete one transmit span whose stages all succeeded: the sample index
/// advances by the span, the periodic deadline is checked, and the span's
/// events are queued in order at the new index.
pub fn transmit_commit(
    worker: &mut TransmitWorker,
    frame_count: u32,
    outcome: SignalingOutcome,
    events: &mut EventQueue,
    generation_id: u64,
) -> (c: TransmitCommit)
    requires
        old(worker).wf(),
        old(events).wf(),
        old(worker).sample_index + frame_count < u64::MAX,
    ensures
        final(worker).wf(),
        final(events).wf(),
        ({
            let w = *old(worker);
            let sample_index = (w.sample_index + frame_count) as u64;
            let due = sample_index >= w.next_publication_frame;
            &&& c.first_sample_index == w.sample_index
            &&& final(worker).sample_index == sample_index
            &&& final(worker).publication_interval_frames == w.publication_interval_frames
            &&& c.periodic_status_due == due
            &&& !due ==> final(worker).next_publication_frame == w.next_publication_frame
            &&& due ==> final(worker).next_publication_frame == spec_next_deadline(
                sample_index as int, w.next_publication_frame as int, w.publication_interval_frames as int)
            &&& final(events)@ == spec_offer_all(old(events)@, spec_transmit_events(outcome, generation_id, sample_index))
            &&& spec_on_grid(w.sample_index as int, w.next_publication_frame as int, w.publication_interval_frames as int)
                && ((sample_index as int) / (w.publication_interval_frames as int) + 1) * w.publication_interval_frames
                <= u64::MAX ==> {
                &&& c.periodic_status_due <==> exists|k: int| k >= 1 && w.sample_index < #[trigger] (k
                    * w.publication_interval_frames) <= sample_index
                &&& spec_on_grid(sample_index as int, final(worker).next_publication_frame as int,
                    w.publication_interval_frames as int)
            }
        }),
{
    let first_sample_index = worker.sample_index;
    worker.sample_index = worker.sample_index + frame_count as u64;
    let due = publication_due(worker.sample_index, &mut worker.next_publication_frame, worker.publication_interval_frames);
    proof {
        if spec_on_grid(first_sample_index as int, old(worker).next_publication_frame as int,
            worker.publication_interval_frames as int) && ((worker.sample_index as int)
            / (worker.publication_interval_frames as int) + 1) * worker.publication_interval_frames <= u64::MAX {
            lemma_publication_crossing(first_sample_index as int, frame_count as int,
                old(worker).next_publication_frame as int, worker.publication_interval_frames as int);
        }
    }
    let sample_index = worker.sample_index;
    let ghost start = events@;
    let pushed = Ghost(Seq::<Event>::empty());
    let pushed = push_if(events, outcome.logical_ptt_raised || outcome.logical_ptt_released, generation_id,
        sample_index, EventKind::Ptt, if outcome.logical_ptt { 1 } else { 0 }, Ghost(start), pushed);
    let pushed = push_if(events, outcome.ctcss_status_event, generation_id, sample_index, EventKind::CtcssTransmit,
        outcome.ctcss_tenths_hz, Ghost(start), pushed);
    let (blanking, ms) = match outcome.receiver_blanking_ms {
        Some(ms) => (true, ms),
        None => (false, 0),
    };
    let pushed = push_if(events, blanking, generation_id, sample_index, EventKind::ReceiverBlanking, ms,
        Ghost(start), pushed);
    assert(pushed@ =~= spec_transmit_events(outcome, generation_id, sample_index));
    TransmitCommit { first_sample_index, periodic_status_due: due }
}

/// A circular delay ring read from its cursor: oldest sample first.
pub open spec fn spec_rotate<T>(ring: Seq<T>, index: int) -> Seq<T> {
    Seq::new(ring.len(), |j: int| ring[(index + j) % (ring.len() as int)])
}

/// The session's native squelch delay: each captured sample enters the
/// ring and the sample it displaces leaves, so the span comes out delayed
/// by the ring's length.  Without a ring the span passes unchanged.
pub fn squelch_delay<T: Copy>(ring: &mut Vec<T>, index: &mut usize, captured: &[T]) -> (delayed: Vec<T>)
    requires
        old(ring).len() == 0 || *old(index) < old(ring).len(),
    ensures
        final(ring)@.len() == old(ring)@.len(),
        old(ring).len() == 0 ==> delayed@ == captured@ && *final(index) == *old(index),
        old(ring).len() != 0 ==> ({
            let history = spec_rotate(old(ring)@, *old(index) as int) + captured@;
            &&& delayed@ == history.subrange(0, captured@.len() as int)
            &&& *final(index) < final(ring)@.len()
            &&& spec_rotate(final(ring)@, *final(index) as int) == history.subrange(
                captured@.len() as int, (captured@.len() + old(ring)@.len()) as int)
        }),
{
    let mut delayed: Vec<T> = Vec::new();
    if ring.len() == 0 {
        let mut k: usize = 0;
        while k < captured.len()
            invariant
                k <= captured.len(),
                delayed@ == captured@.subrange(0, k as int),
            decreases captured.len() - k,
        {
            delayed.push(captured[k]);
            k = k + 1;
            assert(delayed@ =~= captured@.subrange(0, k as int));
        }
        assert(captured@.subrange(0, captured@.len() as int) =~= captured@);
        return delayed;
    }
    let ghost length = ring@.len() as int;
    let ghost history = spec_rotate(ring@, *index as int) + captured@;
    let mut k: usize = 0;
    while k < captured.len()
        invariant
            k <= captured.len(),
            ring@.len() == length,
            length > 0,
            *index < length,
            history.len() == length + captured@.len(),
            forall|i: int| 0 <= i < captured@.len() ==> #[trigger] history[length + i] == captured@[i],
            delayed@ == history.subrange(0, k as int),
            spec_rotate(ring@, *index as int) == history.subrange(k as int, k + length),
        decreases captured.len() - k,
    {
        let i0 = *index;
        assert(spec_rotate(ring@, i0 as int)[0] == ring@[i0 as int]) by {
            vstd::arithmetic::div_mod::lemma_small_mod(i0 as nat, length as nat);
        }
        let ghost before = ring@;
        delayed.push(ring[i0]);
        ring.set(i0, captured[k]);
        let next: usize = if i0 == ring.len() - 1 { 0 } else { i0 + 1 };
        *index = next;
        proof {
            assert forall|j: int| 0 <= j < length implies #[trigger] spec_rotate(ring@, next as int)[j]
                == history[k + 1 + j] by {
                let old_pos = (i0 + 1 + j) % length;
                if i0 + 1 == length {
                    vstd::arithmetic::div_mod::lemma_mod_multiples_vanish(1, j, length);
                    assert((length + j) % length == j % length) by {
                        vstd::arithmetic::div_mod::lemma_mod_multiples_vanish(1, j, length);
                    }
                }
                if j < length - 1 {
                    assert((next as int + j) % length == old_pos) by {
                        if i0 + 1 == length {
                            vstd::arithmetic::div_mod::lemma_mod_multiples_vanish(1, j, length);
                        }
                    }
                    assert(old_pos == (i0 + (j + 1)) % length);
                    assert(old_pos != i0) by {
                        vstd::arithmetic::div_mod::lemma_mod_bound(i0 + 1 + j, length);
                        if i0 + 1 + j < length {
                            vstd::arithmetic::div_mod::lemma_small_mod((i0 + 1 + j) as nat, length as nat);
                        } else {
                            vstd::arithmetic::div_mod::lemma_mod_multiples_vanish(1, i0 + 1 + j - length, length);
                            vstd::arithmetic::div_mod::lemma_small_mod((i0 + 1 + j - length) as nat, length as nat);
                        }
                    }
                    assert(spec_rotate(before, i0 as int)[j + 1] == before[old_pos]);
                } else {
                    assert((next as int + j) % length == i0) by {
                        if i0 + 1 == length {
                            vstd::arithmetic::div_mod::lemma_small_mod(j as nat, length as nat);
                        } else {
                            vstd::arithmetic::div_mod::lemma_mod_multiples_vanish(1, i0 as int, length);
                            vstd::arithmetic::div_mod::lemma_small_mod(i0 as nat, length as nat);
                        }
                    }
                    assert(history[length + k] == captured@[k as int]);
                }
            }
            assert(spec_rotate(ring@, next as int) =~= history.subrange(k + 1, k + 1 + length));
            assert(delayed@ =~= history.subrange(0, k + 1));
        }
        k = k + 1;
    }
    delayed
}

} // verus!
