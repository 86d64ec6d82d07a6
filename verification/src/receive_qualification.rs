//! Sample-clocked receive qualification.
//!
//! Resolves hardware and DSP snapshots into carrier and subaudible
//! indications, then measures receiver admission and the post-transmit guard
//! in native sample time.  Splitting a stream into callback partitions cannot
//! change a qualification delay.

use vstd::prelude::*;

verus! {

/// Native frames in one configured 20 ms qualification interval.
pub const QUALIFICATION_INTERVAL_FRAMES: u64 = 960;

/// Largest supported post-transmit delay: 60 seconds in native frames.
pub const MAX_TX_OFF_DELAY_FRAMES: u64 = 2_880_000;

/// Selects the raw signal used as the receiver carrier indication.
#[derive(Clone, Copy, Debug, PartialEq, Eq, Structural)]
pub enum CarrierSource {
    /// Do not admit a carrier indication from this source.
    Ignore,
    /// Use the normal-polarity CM119/HID input.
    Hardware,
    /// Use the inverted CM119/HID input.
    HardwareInverted,
    /// Use the native DSP noise-squelch indication.
    DspNoise,
    /// Use the native DSP VOX indication.
    DspVox,
    /// Use the normal-polarity parallel input.
    Parallel,
    /// Use the inverted parallel input.
    ParallelInverted,
}

/// Selects the indication used as the receiver subaudible qualification.
#[derive(Clone, Copy, Debug, PartialEq, Eq, Structural)]
pub enum SubaudibleSource {
    /// Retain the native CTCSS/DCS decision unless both sources are ignored.
    Ignore,
    /// Use the native CTCSS/DCS decision.
    Dsp,
    /// Use the normal-polarity CM119/HID input.
    Hardware,
    /// Use the inverted CM119/HID input.
    HardwareInverted,
    /// Use the normal-polarity parallel input.
    Parallel,
    /// Use the inverted parallel input.
    ParallelInverted,
}

/// Signal mode relevant to CTCSS and DCS qualification.
#[derive(Clone, Copy, Debug, PartialEq, Eq, Structural)]
pub enum SignalMode {
    /// No recognized subaudible mode is active.
    Inactive,
    /// The CTCSS mode owns the current received code.
    Ctcss,
    /// The DCS mode owns the current received code.
    Dcs,
    /// A legacy mode that takes no part in CTCSS or DCS qualification.
    Other,
}

impl Default for CarrierSource {
    fn default() -> (source: Self)
        ensures
            source == CarrierSource::Ignore,
    {
        CarrierSource::Ignore
    }
}

impl Default for SubaudibleSource {
    fn default() -> (source: Self)
        ensures
            source == SubaudibleSource::Ignore,
    {
        SubaudibleSource::Ignore
    }
}

impl Default for SignalMode {
    fn default() -> (mode: Self)
        ensures
            mode == SignalMode::Inactive,
    {
        SignalMode::Inactive
    }
}

/// Immutable receive-qualification policy resolved by the control plane.
#[derive(Clone, Copy, Debug, PartialEq, Eq)]
pub struct Config {
    /// Configured source for COR qualification.
    pub carrier_source: CarrierSource,
    /// Configured source for subaudible qualification.
    pub subaudible_source: SubaudibleSource,
    /// Permit receive when the legacy CTCSS override is asserted.
    pub subaudible_override: bool,
    /// Permit carrier during logical transmit for the advanced transport.
    pub advanced_transport: bool,
    /// Permit carrier during logical transmit for a duplex radio.
    pub radio_duplex: bool,
    /// Whole 20 ms qualification intervals required before receiver keying.
    pub rx_on_delay_frames: u32,
    /// Whole 20 ms intervals required after transmitter release.
    pub tx_off_delay_frames: u32,
}

/// Canonical adapter snapshots supplied once for a bounded native tick.
#[derive(Clone, Copy, Debug, PartialEq, Eq)]
pub struct Inputs {
    /// Current normal-polarity CM119/HID carrier input.
    pub hardware_carrier: bool,
    /// Current normal-polarity parallel carrier input.
    pub parallel_carrier: bool,
    /// Current native DSP carrier indication.
    pub dsp_carrier: bool,
    /// Current normal-polarity CM119/HID CTCSS input.
    pub hardware_subaudible: bool,
    /// Current normal-polarity parallel CTCSS input.
    pub parallel_subaudible: bool,
    /// One when a DCS receiver is configured.
    pub dcs_receive_enabled: bool,
    /// Current DCS decoder validity.
    pub dcs_valid: bool,
    /// One when CTCSS receive decoding is configured.
    pub ctcss_receive_enabled: bool,
    /// One when a configured CTCSS decoder object is available.
    pub ctcss_decoder_available: bool,
    /// Current CTCSS decoder validity.
    pub ctcss_decoded: bool,
    /// Current signaling mode selected by the receive engine.
    pub signal_mode: SignalMode,
    /// Current logical transmitter PTT output.
    pub tx_ptt_out: bool,
    /// One while post-transmit receive blanking remains active.
    pub txrx_blanking_active: bool,
}

/// Callback-owned receive qualification state.
#[derive(Clone, Copy, Debug, PartialEq, Eq)]
pub struct State {
    /// Last published hardware carrier state.
    pub external_carrier_detect: bool,
    /// Current resolved carrier indication before on/off qualification.
    pub carrier_active: bool,
    /// Current resolved CTCSS/DCS indication before on/off qualification.
    pub subaudible_active: bool,
    /// Current qualified receiver state.
    pub rx_keyed: bool,
    /// Consecutive admitted native frames since the observed receive rise.
    pub rx_admission_elapsed_frames: u64,
    /// Native frames elapsed since the observed logical PTT release.
    pub tx_release_elapsed_frames: u64,
}

/// Observable result from one receive-qualification update.
#[derive(Clone, Copy, Debug, PartialEq, Eq)]
pub struct Output {
    /// Resolved carrier indication immediately observable after this tick.
    pub carrier_active: bool,
    /// Resolved CTCSS/DCS indication immediately observable after this tick.
    pub subaudible_active: bool,
    /// Receiver state after the current span's elapsed qualification time.
    pub rx_keyed: bool,
}

impl Default for Config {
    fn default() -> (config: Self)
        ensures
            config == (Config {
                carrier_source: CarrierSource::Ignore,
                subaudible_source: SubaudibleSource::Ignore,
                subaudible_override: false,
                advanced_transport: false,
                radio_duplex: false,
                rx_on_delay_frames: 0,
                tx_off_delay_frames: 0,
            }),
    {
        Config {
            carrier_source: CarrierSource::Ignore,
            subaudible_source: SubaudibleSource::Ignore,
            subaudible_override: false,
            advanced_transport: false,
            radio_duplex: false,
            rx_on_delay_frames: 0,
            tx_off_delay_frames: 0,
        }
    }
}

impl Default for Inputs {
    fn default() -> (inputs: Self)
        ensures
            inputs == (Inputs {
                hardware_carrier: false,
                parallel_carrier: false,
                dsp_carrier: false,
                hardware_subaudible: false,
                parallel_subaudible: false,
                dcs_receive_enabled: false,
                dcs_valid: false,
                ctcss_receive_enabled: false,
                ctcss_decoder_available: false,
                ctcss_decoded: false,
                signal_mode: SignalMode::Inactive,
                tx_ptt_out: false,
                txrx_blanking_active: false,
            }),
    {
        Inputs {
            hardware_carrier: false,
            parallel_carrier: false,
            dsp_carrier: false,
            hardware_subaudible: false,
            parallel_subaudible: false,
            dcs_receive_enabled: false,
            dcs_valid: false,
            ctcss_receive_enabled: false,
            ctcss_decoder_available: false,
            ctcss_decoded: false,
            signal_mode: SignalMode::Inactive,
            tx_ptt_out: false,
            txrx_blanking_active: false,
        }
    }
}

/// The initial state: nothing qualified, no elapsed time.
pub open spec fn spec_initial_state() -> State {
    State {
        external_carrier_detect: false,
        carrier_active: false,
        subaudible_active: false,
        rx_keyed: false,
        rx_admission_elapsed_frames: 0,
        tx_release_elapsed_frames: 0,
    }
}

impl Default for State {
    fn default() -> (state: Self)
        ensures
            state == spec_initial_state(),
    {
        State {
            external_carrier_detect: false,
            carrier_active: false,
            subaudible_active: false,
            rx_keyed: false,
            rx_admission_elapsed_frames: 0,
            tx_release_elapsed_frames: 0,
        }
    }
}

impl Default for Output {
    fn default() -> (output: Self)
        ensures
            output == (Output { carrier_active: false, subaudible_active: false, rx_keyed: false }),
    {
        Output { carrier_active: false, subaudible_active: false, rx_keyed: false }
    }
}

/// The native CTCSS/DCS decision before an external source override.
pub open spec fn spec_dsp_subaudible_active(inputs: Inputs) -> bool {
    if inputs.dcs_receive_enabled {
        inputs.dcs_valid && inputs.signal_mode == SignalMode::Dcs
    } else if !inputs.ctcss_receive_enabled {
        true
    } else {
        inputs.ctcss_decoder_available && inputs.ctcss_decoded && inputs.signal_mode == SignalMode::Ctcss
    }
}

/// Resolve the native CTCSS/DCS decision before an external source override.
pub fn dsp_subaudible_active(inputs: &Inputs) -> (active: bool)
    ensures
        active == spec_dsp_subaudible_active(*inputs),
{
    if inputs.dcs_receive_enabled {
        return inputs.dcs_valid && inputs.signal_mode == SignalMode::Dcs;
    }
    if !inputs.ctcss_receive_enabled {
        return true;
    }
    inputs.ctcss_decoder_available && inputs.ctcss_decoded && inputs.signal_mode == SignalMode::Ctcss
}

/// The external carrier for a published source; DSP sources have none.
pub open spec fn spec_external_carrier(source: CarrierSource, hardware: bool, parallel: bool) -> Option<bool> {
    match source {
        CarrierSource::Ignore => Some(false),
        CarrierSource::Hardware => Some(hardware),
        CarrierSource::HardwareInverted => Some(!hardware),
        CarrierSource::Parallel => Some(parallel),
        CarrierSource::ParallelInverted => Some(!parallel),
        CarrierSource::DspNoise | CarrierSource::DspVox => None,
    }
}

/// Resolve published external COS, leaving DSP noise/VOX to their detectors.
pub fn external_carrier(source: CarrierSource, hardware: bool, parallel: bool) -> (carrier: Option<bool>)
    ensures
        carrier == spec_external_carrier(source, hardware, parallel),
{
    match source {
        CarrierSource::Ignore => Some(false),
        CarrierSource::Hardware => Some(hardware),
        CarrierSource::HardwareInverted => Some(!hardware),
        CarrierSource::Parallel => Some(parallel),
        CarrierSource::ParallelInverted => Some(!parallel),
        CarrierSource::DspNoise | CarrierSource::DspVox => None,
    }
}

/// The raw carrier: the external source, or the DSP detector for DSP sources.
pub open spec fn spec_raw_carrier(config: Config, inputs: Inputs) -> bool {
    match spec_external_carrier(config.carrier_source, inputs.hardware_carrier, inputs.parallel_carrier) {
        Some(value) => value,
        None => inputs.dsp_carrier,
    }
}

/// Carrier after the transmit, blanking, and both-sources-ignored gates.
pub open spec fn spec_carrier(config: Config, inputs: Inputs) -> bool {
    &&& spec_raw_carrier(config, inputs)
    &&& (!inputs.tx_ptt_out || config.advanced_transport || config.radio_duplex)
    &&& !inputs.txrx_blanking_active
    &&& !(config.carrier_source == CarrierSource::Ignore && config.subaudible_source == SubaudibleSource::Ignore)
}

/// Subaudible indication after source selection, override, and the ignore gate.
pub open spec fn spec_subaudible(config: Config, inputs: Inputs) -> bool {
    if config.carrier_source == CarrierSource::Ignore && config.subaudible_source == SubaudibleSource::Ignore {
        false
    } else if config.subaudible_override {
        true
    } else {
        match config.subaudible_source {
            SubaudibleSource::Ignore | SubaudibleSource::Dsp => spec_dsp_subaudible_active(inputs),
            SubaudibleSource::Hardware => inputs.hardware_subaudible,
            SubaudibleSource::HardwareInverted => !inputs.hardware_subaudible,
            SubaudibleSource::Parallel => inputs.parallel_subaudible,
            SubaudibleSource::ParallelInverted => !inputs.parallel_subaudible,
        }
    }
}

/// Published hardware carrier: updated only for a hardware carrier source.
pub open spec fn spec_external_detect(config: Config, inputs: Inputs, previous: bool) -> bool {
    if config.carrier_source == CarrierSource::Hardware || config.carrier_source == CarrierSource::HardwareInverted {
        spec_raw_carrier(config, inputs)
    } else {
        previous
    }
}

/// Resolve immediate carrier and subaudible indications for one tick.
pub fn resolve_indications(config: &Config, inputs: &Inputs, state: &mut State)
    ensures
        final(state).carrier_active == spec_carrier(*config, *inputs),
        final(state).subaudible_active == spec_subaudible(*config, *inputs),
        final(state).external_carrier_detect == spec_external_detect(*config, *inputs, old(state).external_carrier_detect),
        final(state).rx_keyed == old(state).rx_keyed,
        final(state).rx_admission_elapsed_frames == old(state).rx_admission_elapsed_frames,
        final(state).tx_release_elapsed_frames == old(state).tx_release_elapsed_frames,
{
    let raw_carrier = match external_carrier(config.carrier_source, inputs.hardware_carrier, inputs.parallel_carrier) {
        Some(value) => value,
        None => inputs.dsp_carrier,
    };
    if config.carrier_source == CarrierSource::Hardware || config.carrier_source == CarrierSource::HardwareInverted {
        state.external_carrier_detect = raw_carrier;
    }

    let mut carrier = raw_carrier && (!inputs.tx_ptt_out || config.advanced_transport || config.radio_duplex);
    if inputs.txrx_blanking_active {
        carrier = false;
    }

    let mut subaudible = dsp_subaudible_active(inputs);
    match config.subaudible_source {
        SubaudibleSource::Ignore | SubaudibleSource::Dsp => {},
        SubaudibleSource::Hardware => subaudible = inputs.hardware_subaudible,
        SubaudibleSource::HardwareInverted => subaudible = !inputs.hardware_subaudible,
        SubaudibleSource::Parallel => subaudible = inputs.parallel_subaudible,
        SubaudibleSource::ParallelInverted => subaudible = !inputs.parallel_subaudible,
    }
    if config.subaudible_override {
        subaudible = true;
    }
    if config.carrier_source == CarrierSource::Ignore && config.subaudible_source == SubaudibleSource::Ignore {
        carrier = false;
        subaudible = false;
    }

    state.carrier_active = carrier;
    state.subaudible_active = subaudible;
}

/// Convert a configured 20 ms count to its exact native-frame duration.
pub fn qualification_duration_frames(interval_count: u32) -> (frames: u64)
    ensures
        frames == interval_count * QUALIFICATION_INTERVAL_FRAMES,
{
    interval_count as u64 * QUALIFICATION_INTERVAL_FRAMES
}

/// `value + increment` saturated at `u64::MAX`, then capped at `cap`.
pub open spec fn spec_capped_add(value: u64, increment: u32, cap: u64) -> u64 {
    let sum = value + increment;
    let saturated = if sum > u64::MAX { u64::MAX as int } else { sum };
    if saturated < cap { saturated as u64 } else { cap }
}

/// Post-transmit guard progress after one span.
pub open spec fn spec_tx_release(config: Config, inputs: Inputs, native_frame_count: u32, previous: u64) -> u64 {
    if inputs.tx_ptt_out || config.tx_off_delay_frames == 0 {
        0
    } else {
        spec_capped_add(previous, native_frame_count, MAX_TX_OFF_DELAY_FRAMES)
    }
}

/// Advance the logical-PTT release guard for one stable input span.
pub fn advance_tx_release(config: &Config, inputs: &Inputs, native_frame_count: u32, state: &mut State)
    ensures
        final(state).tx_release_elapsed_frames == spec_tx_release(
            *config,
            *inputs,
            native_frame_count,
            old(state).tx_release_elapsed_frames,
        ),
        *final(state) == (State { tx_release_elapsed_frames: final(state).tx_release_elapsed_frames, ..*old(state) }),
{
    if inputs.tx_ptt_out || config.tx_off_delay_frames == 0 {
        state.tx_release_elapsed_frames = 0;
        return;
    }
    let sum = state.tx_release_elapsed_frames.saturating_add(native_frame_count as u64);
    state.tx_release_elapsed_frames = if sum < MAX_TX_OFF_DELAY_FRAMES { sum } else { MAX_TX_OFF_DELAY_FRAMES };
}

/// Whether the configured post-transmit guard has elapsed.
pub open spec fn spec_tx_release_qualified(config: Config, elapsed: u64) -> bool {
    let required = config.tx_off_delay_frames * QUALIFICATION_INTERVAL_FRAMES;
    required == 0 || elapsed >= required
}

/// Return whether the configured post-transmit guard has elapsed.
pub fn tx_release_qualified(config: &Config, state: &State) -> (qualified: bool)
    ensures
        qualified == spec_tx_release_qualified(*config, state.tx_release_elapsed_frames),
{
    let required_frames = qualification_duration_frames(config.tx_off_delay_frames);
    required_frames == 0 || state.tx_release_elapsed_frames >= required_frames
}

/// Receiver admission after one span, given the resolved indications.
pub open spec fn spec_qualify(config: Config, native_frame_count: u32, state: State) -> State {
    if !(state.carrier_active && state.subaudible_active) {
        State { rx_keyed: false, rx_admission_elapsed_frames: 0, ..state }
    } else if state.rx_keyed {
        state
    } else {
        let required = (config.rx_on_delay_frames * QUALIFICATION_INTERVAL_FRAMES) as u64;
        let elapsed = if required != 0 {
            spec_capped_add(state.rx_admission_elapsed_frames, native_frame_count, required)
        } else {
            0
        };
        let keyed = (required == 0 || elapsed >= required)
            && spec_tx_release_qualified(config, state.tx_release_elapsed_frames);
        State { rx_admission_elapsed_frames: elapsed, rx_keyed: keyed, ..state }
    }
}

/// Advance receiver admission from the current observed signaling state.
pub fn qualify_receive(config: &Config, native_frame_count: u32, state: &mut State)
    ensures
        *final(state) == spec_qualify(*config, native_frame_count, *old(state)),
{
    let admitted = state.carrier_active && state.subaudible_active;
    if !admitted {
        state.rx_keyed = false;
        state.rx_admission_elapsed_frames = 0;
        return;
    }
    if state.rx_keyed {
        return;
    }
    let required_frames = qualification_duration_frames(config.rx_on_delay_frames);
    if required_frames != 0 {
        let sum = state.rx_admission_elapsed_frames.saturating_add(native_frame_count as u64);
        state.rx_admission_elapsed_frames = if sum < required_frames { sum } else { required_frames };
    } else {
        state.rx_admission_elapsed_frames = 0;
    }
    if (required_frames == 0 || state.rx_admission_elapsed_frames >= required_frames)
        && tx_release_qualified(config, state)
    {
        state.rx_keyed = true;
    }
}

/// The complete state after one span.
pub open spec fn spec_advance(config: Config, inputs: Inputs, native_frame_count: u32, state: State) -> State {
    let resolved = State {
        external_carrier_detect: spec_external_detect(config, inputs, state.external_carrier_detect),
        carrier_active: spec_carrier(config, inputs),
        subaudible_active: spec_subaudible(config, inputs),
        tx_release_elapsed_frames: spec_tx_release(config, inputs, native_frame_count, state.tx_release_elapsed_frames),
        ..state
    };
    spec_qualify(config, native_frame_count, resolved)
}

/// Resolve immediate indications and advance qualification for a native span.
///
/// The caller supplies one stable hardware/DSP snapshot for the span.  An
/// observed signaling change takes effect at the start of that span;
/// configured delays then advance by exactly its native-frame count.
pub fn advance(config: &Config, inputs: &Inputs, native_frame_count: u32, state: &mut State) -> (output: Output)
    ensures
        *final(state) == spec_advance(*config, *inputs, native_frame_count, *old(state)),
        output == (Output {
            carrier_active: final(state).carrier_active,
            subaudible_active: final(state).subaudible_active,
            rx_keyed: final(state).rx_keyed,
        }),
{
    resolve_indications(config, inputs, state);
    advance_tx_release(config, inputs, native_frame_count, state);
    qualify_receive(config, native_frame_count, state);
    Output {
        carrier_active: state.carrier_active,
        subaudible_active: state.subaudible_active,
        rx_keyed: state.rx_keyed,
    }
}

/// Capping a sum twice at the same bound equals capping the whole sum once.
proof fn lemma_capped_add_partition(value: u64, first: u32, second: u32, cap: u64)
    requires
        first + second <= u32::MAX,
    ensures
        spec_capped_add(spec_capped_add(value, first, cap), second, cap)
            == spec_capped_add(value, (first + second) as u32, cap),
{
}

/// With one stable snapshot, two consecutive spans reach exactly the state
/// that one span of their combined length reaches: callback partitioning
/// cannot change receiver admission or the post-transmit guard.
pub proof fn lemma_partition_invariant(config: Config, inputs: Inputs, state: State, first: u32, second: u32)
    requires
        first + second <= u32::MAX,
    ensures
        spec_advance(config, inputs, second, spec_advance(config, inputs, first, state))
            == spec_advance(config, inputs, (first + second) as u32, state),
{
    lemma_capped_add_partition(state.tx_release_elapsed_frames, first, second, MAX_TX_OFF_DELAY_FRAMES);
    let required = (config.rx_on_delay_frames * QUALIFICATION_INTERVAL_FRAMES) as u64;
    lemma_capped_add_partition(state.rx_admission_elapsed_frames, first, second, required);
}

/// A receiver that loses either indication closes at once and restarts its
/// admission delay.
pub proof fn lemma_loss_closes(config: Config, inputs: Inputs, native_frame_count: u32, state: State)
    requires
        !(spec_carrier(config, inputs) && spec_subaudible(config, inputs)),
    ensures
        !spec_advance(config, inputs, native_frame_count, state).rx_keyed,
        spec_advance(config, inputs, native_frame_count, state).rx_admission_elapsed_frames == 0,
{
}

/// The native frames of a sequence of spans.
pub open spec fn spec_total_frames(pieces: Seq<u32>) -> nat
    decreases pieces.len(),
{
    if pieces.len() == 0 { 0 } else { pieces[0] as nat + spec_total_frames(pieces.drop_first()) }
}

/// The state after consecutive spans with one stable snapshot.
pub open spec fn spec_advance_pieces(config: Config, inputs: Inputs, pieces: Seq<u32>, state: State) -> State
    decreases pieces.len(),
{
    if pieces.len() == 0 {
        state
    } else {
        spec_advance_pieces(config, inputs, pieces.drop_first(), spec_advance(config, inputs, pieces[0], state))
    }
}

/// With one stable snapshot, any partition of a run of native frames into
/// one or more consecutive spans reaches exactly the state that one span of
/// the whole run reaches: receiver admission and the post-transmit guard
/// take the same native-frame delay however the callbacks divide the
/// stream.
pub proof fn lemma_partition_pieces(config: Config, inputs: Inputs, state: State, pieces: Seq<u32>)
    requires
        pieces.len() > 0,
        spec_total_frames(pieces) <= u32::MAX,
    ensures
        spec_advance_pieces(config, inputs, pieces, state)
            == spec_advance(config, inputs, spec_total_frames(pieces) as u32, state),
    decreases pieces.len(),
{
    if pieces.len() == 1 {
        assert(pieces.drop_first() =~= Seq::<u32>::empty());
        assert(spec_total_frames(pieces.drop_first()) == 0);
        assert(spec_advance_pieces(config, inputs, pieces.drop_first(), spec_advance(config, inputs, pieces[0], state))
            == spec_advance(config, inputs, pieces[0], state));
        assert(spec_total_frames(pieces) == pieces[0]);
    } else {
        let rest = pieces.subrange(2, pieces.len() as int);
        assert(pieces.drop_first().drop_first() =~= rest);
        assert(pieces.drop_first()[0] == pieces[1]);
        assert(spec_total_frames(pieces.drop_first()) == pieces[1] + spec_total_frames(rest));
        assert(spec_total_frames(pieces) == pieces[0] + pieces[1] + spec_total_frames(rest));
        let merged = seq![(pieces[0] + pieces[1]) as u32] + rest;
        assert(merged.drop_first() =~= rest);
        assert(merged[0] == pieces[0] + pieces[1]);
        assert(spec_total_frames(merged) == spec_total_frames(pieces));
        let first = spec_advance(config, inputs, pieces[0], state);
        assert(spec_advance_pieces(config, inputs, pieces, state)
            == spec_advance_pieces(config, inputs, pieces.drop_first(), first));
        assert(spec_advance_pieces(config, inputs, pieces.drop_first(), first)
            == spec_advance_pieces(config, inputs, rest, spec_advance(config, inputs, pieces[1], first)));
        assert(spec_advance_pieces(config, inputs, merged, state)
            == spec_advance_pieces(config, inputs, rest, spec_advance(config, inputs, merged[0], state)));
        lemma_partition_invariant(config, inputs, state, pieces[0], pieces[1]);
        lemma_partition_pieces(config, inputs, state, merged);
        assert(spec_advance(config, inputs, pieces[1], first) == spec_advance(config, inputs, merged[0], state));
    }
}

} // verus!
