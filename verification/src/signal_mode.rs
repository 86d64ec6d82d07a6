//! Legacy-compatible receive signaling-mode selection.
//!
//! This operation owns only the CTCSS/DCS mode hold and the CTCSS
//! transmit-tone selection of the historical radio-signaling loop.  A failed
//! call leaves the caller's state untouched.

use vstd::prelude::*;
use crate::timer::{consume, spec_consume_timer};
use crate::RADIO_INVALID_ARGUMENT;

verus! {

/// Legacy no-signaling mode.
pub const MODE_NONE: i32 = 0;
/// Legacy CTCSS signaling mode.
pub const MODE_CTCSS: i32 = 2;
/// Legacy DCS signaling mode.
pub const MODE_DCS: i32 = 3;

/// Legacy sentinel meaning that no CTCSS tone decoded.
pub const CTCSS_NONE: i32 = -1;

/// Number of CTCSS mapping entries.
pub const TONE_COUNT: usize = 38;

/// Size in bytes of the C layout of [`SignalModeConfig`].
pub const SIGNAL_MODE_CONFIG_SIZE: u32 = 168;

/// Immutable signaling-mode configuration.
///
/// Mapping entries are exact tenths of hertz: zero means receive-only.
#[derive(Clone, Copy, Debug, PartialEq, Eq)]
pub struct SignalModeConfig {
    /// Size supplied by the caller for append-only ABI validation.
    pub struct_size: u32,
    /// Configured signaling-mode hold time in milliseconds.
    pub hold_ms: i32,
    /// One when a decoded CTCSS tone may select transmitter CTCSS.
    pub ctcss_tx_enabled: u32,
    /// Default transmit CTCSS selection in tenths of hertz.
    pub default_tx_ctcss_frequency_tenths_hz: i32,
    /// Mapped transmit CTCSS selections indexed by decoded tone.
    pub mapped_tx_ctcss_frequency_tenths_hz: [i32; TONE_COUNT],
}

/// One elapsed-time and decoder snapshot for a signaling-mode update.
#[derive(Clone, Copy, Debug, PartialEq, Eq)]
pub struct SignalModeInput {
    /// Whole elapsed milliseconds for this callback span.
    pub elapsed_ms: i32,
    /// Decoded CTCSS table index, or [`CTCSS_NONE`] when none qualifies.
    pub decoded_ctcss: i32,
    /// One while the native DCS decoder qualifies its configured code.
    pub dcs_valid: u32,
    /// One while transmitter input is asserted and the mode timer is frozen.
    pub tx_ptt_in: u32,
}

/// Caller-owned signaling-mode state.
#[derive(Clone, Copy, Debug, PartialEq, Eq)]
pub struct SignalModeState {
    /// Current legacy signaling mode.
    pub smode: i32,
    /// Most recently selected legacy signaling mode.
    pub smode_was: i32,
    /// Remaining mode hold time in milliseconds.
    pub smode_timer_ms: i32,
    /// Previously acted-on received CTCSS table index.
    pub last_rx_ctcss: i32,
    /// Selected transmitter CTCSS frequency in tenths of hertz.
    pub tx_ctcss_frequency_tenths_hz: i32,
    /// Renderer request; one requests a newly selected tone.
    pub tx_ctcss_option: u32,
    /// Sticky indication that a signaling-mode hold expired.
    pub smode_turnoff: u32,
}

impl Default for SignalModeInput {
    fn default() -> (input: Self)
        ensures
            input == (SignalModeInput { elapsed_ms: 0, decoded_ctcss: 0, dcs_valid: 0, tx_ptt_in: 0 }),
    {
        SignalModeInput { elapsed_ms: 0, decoded_ctcss: 0, dcs_valid: 0, tx_ptt_in: 0 }
    }
}

/// The idle state: no mode, no tone, no pending request.
pub open spec fn spec_idle_state() -> SignalModeState {
    SignalModeState {
        smode: MODE_NONE,
        smode_was: MODE_NONE,
        smode_timer_ms: 0,
        last_rx_ctcss: CTCSS_NONE,
        tx_ctcss_frequency_tenths_hz: 0,
        tx_ctcss_option: 0,
        smode_turnoff: 0,
    }
}

impl Default for SignalModeState {
    fn default() -> (state: Self)
        ensures
            state == spec_idle_state(),
    {
        SignalModeState {
            smode: MODE_NONE,
            smode_was: MODE_NONE,
            smode_timer_ms: 0,
            last_rx_ctcss: CTCSS_NONE,
            tx_ctcss_frequency_tenths_hz: 0,
            tx_ctcss_option: 0,
            smode_turnoff: 0,
        }
    }
}

impl SignalModeConfig {
    /// Return a zero-effect configuration with a valid structure size.
    pub fn disabled() -> (config: Self)
        ensures
            config.struct_size == SIGNAL_MODE_CONFIG_SIZE,
            config.hold_ms == 0,
            config.ctcss_tx_enabled == 0,
            config.default_tx_ctcss_frequency_tenths_hz == 0,
            forall|i: int| 0 <= i < TONE_COUNT ==> config.mapped_tx_ctcss_frequency_tenths_hz@[i] == 0,
            spec_valid_config(config),
    {
        let config = SignalModeConfig {
            struct_size: SIGNAL_MODE_CONFIG_SIZE,
            hold_ms: 0,
            ctcss_tx_enabled: 0,
            default_tx_ctcss_frequency_tenths_hz: 0,
            mapped_tx_ctcss_frequency_tenths_hz: [0; TONE_COUNT],
        };
        config
    }
}

/// Configuration accepted before a stream starts.
pub open spec fn spec_valid_config(config: SignalModeConfig) -> bool {
    &&& config.struct_size >= SIGNAL_MODE_CONFIG_SIZE
    &&& config.ctcss_tx_enabled <= 1
    &&& forall|i: int| 0 <= i < TONE_COUNT ==> config.mapped_tx_ctcss_frequency_tenths_hz@[i] >= 0
}

/// Decoder snapshot accepted for one update.
pub open spec fn spec_valid_input(input: SignalModeInput) -> bool {
    &&& input.dcs_valid <= 1
    &&& input.tx_ptt_in <= 1
    &&& CTCSS_NONE <= input.decoded_ctcss < TONE_COUNT
}

/// Validate immutable signaling-mode policy before a stream starts.
pub fn validate_config(config: &SignalModeConfig) -> (result: Result<(), i32>)
    ensures
        result is Ok <==> spec_valid_config(*config),
        result matches Err(code) ==> code == RADIO_INVALID_ARGUMENT,
{
    if config.struct_size < SIGNAL_MODE_CONFIG_SIZE || config.ctcss_tx_enabled > 1 {
        return Err(RADIO_INVALID_ARGUMENT);
    }
    let mut index: usize = 0;
    while index < TONE_COUNT
        invariant
            0 <= index <= TONE_COUNT,
            forall|i: int| 0 <= i < index ==> config.mapped_tx_ctcss_frequency_tenths_hz@[i] >= 0,
        decreases TONE_COUNT - index,
    {
        if config.mapped_tx_ctcss_frequency_tenths_hz[index] < 0 {
            return Err(RADIO_INVALID_ARGUMENT);
        }
        index = index + 1;
    }
    Ok(())
}

/// Validate one decoder snapshot.
pub fn validate_input(input: &SignalModeInput) -> (result: Result<(), i32>)
    ensures
        result is Ok <==> spec_valid_input(*input),
        result matches Err(code) ==> code == RADIO_INVALID_ARGUMENT,
{
    if input.dcs_valid > 1 || input.tx_ptt_in > 1 || input.decoded_ctcss < CTCSS_NONE
        || input.decoded_ctcss >= TONE_COUNT as i32
    {
        return Err(RADIO_INVALID_ARGUMENT);
    }
    Ok(())
}

/// Step one: the mode hold timer runs only while PTT input is absent.
pub open spec fn spec_hold_step(input: SignalModeInput, state: SignalModeState) -> SignalModeState {
    if state.smode_timer_ms > 0 && input.tx_ptt_in == 0 {
        let timer = spec_consume_timer(state.smode_timer_ms, input.elapsed_ms);
        if timer == 0 {
            SignalModeState {
                smode_timer_ms: 0,
                smode_was: state.smode,
                smode: MODE_NONE,
                smode_turnoff: 1,
                ..state
            }
        } else {
            SignalModeState { smode_timer_ms: timer, ..state }
        }
    } else {
        state
    }
}

/// Step two: a decoded CTCSS tone claims an idle or CTCSS mode and rearms the hold.
pub open spec fn spec_ctcss_claim_step(
    config: SignalModeConfig,
    input: SignalModeInput,
    state: SignalModeState,
) -> SignalModeState {
    if input.decoded_ctcss > CTCSS_NONE && (state.smode == MODE_NONE || state.smode == MODE_CTCSS) {
        SignalModeState {
            smode: MODE_CTCSS,
            smode_was: if state.smode != MODE_CTCSS { MODE_CTCSS } else { state.smode_was },
            smode_timer_ms: config.hold_ms,
            ..state
        }
    } else {
        state
    }
}

/// Transmit tone selected for a newly seen decode: mapped for a tone, default for none.
pub open spec fn spec_selected_frequency(config: SignalModeConfig, decoded_ctcss: i32) -> i32 {
    if decoded_ctcss > CTCSS_NONE {
        config.mapped_tx_ctcss_frequency_tenths_hz@[decoded_ctcss as int]
    } else {
        config.default_tx_ctcss_frequency_tenths_hz
    }
}

/// Step three: in CTCSS mode with transmit enabled, a changed decode selects a tone.
pub open spec fn spec_tone_select_step(
    config: SignalModeConfig,
    input: SignalModeInput,
    state: SignalModeState,
) -> SignalModeState {
    if state.smode == MODE_CTCSS && config.ctcss_tx_enabled != 0 {
        if input.decoded_ctcss != state.last_rx_ctcss {
            let selected = spec_selected_frequency(config, input.decoded_ctcss);
            let noted = SignalModeState { last_rx_ctcss: input.decoded_ctcss, ..state };
            if selected != 0 && noted.tx_ctcss_frequency_tenths_hz != selected {
                SignalModeState {
                    tx_ctcss_frequency_tenths_hz: selected,
                    tx_ctcss_option: 1,
                    ..noted
                }
            } else {
                noted
            }
        } else {
            state
        }
    } else {
        SignalModeState { last_rx_ctcss: CTCSS_NONE, ..state }
    }
}

/// Step four: a valid DCS decode claims an idle or DCS mode and rearms the hold.
pub open spec fn spec_dcs_claim_step(
    config: SignalModeConfig,
    input: SignalModeInput,
    state: SignalModeState,
) -> SignalModeState {
    if input.dcs_valid != 0 && (state.smode == MODE_NONE || state.smode == MODE_DCS) {
        SignalModeState {
            smode: MODE_DCS,
            smode_was: MODE_DCS,
            smode_timer_ms: config.hold_ms,
            ..state
        }
    } else {
        state
    }
}

/// The complete legacy transition, in its historical order.
pub open spec fn spec_advance(
    config: SignalModeConfig,
    input: SignalModeInput,
    state: SignalModeState,
) -> SignalModeState {
    let held = spec_hold_step(input, state);
    let claimed = spec_ctcss_claim_step(config, input, held);
    let selected = spec_tone_select_step(config, input, claimed);
    spec_dcs_claim_step(config, input, selected)
}

/// Advance one legacy-compatible signaling-mode transition transactionally.
///
/// The mode timer consumes only supplied elapsed milliseconds and is frozen
/// while PTT input is present.  CTCSS gets first claim when the current mode
/// permits it; a valid DCS result then gets the same claim only when CTCSS did
/// not select the mode.
pub fn advance(
    config: &SignalModeConfig,
    input: &SignalModeInput,
    state: &mut SignalModeState,
) -> (result: Result<(), i32>)
    ensures
        result is Ok <==> spec_valid_config(*config) && spec_valid_input(*input),
        result is Ok ==> *final(state) == spec_advance(*config, *input, *old(state)),
        result matches Err(code) ==> code == RADIO_INVALID_ARGUMENT && *final(state) == *old(state),
{
    validate_config(config)?;
    validate_input(input)?;

    let mut next = *state;

    if next.smode_timer_ms > 0 && input.tx_ptt_in == 0 {
        let _ = consume(&mut next.smode_timer_ms, input.elapsed_ms);
        if next.smode_timer_ms == 0 {
            next.smode_was = next.smode;
            next.smode = MODE_NONE;
            next.smode_turnoff = 1;
        }
    }
    assert(next == spec_hold_step(*input, *old(state)));

    if input.decoded_ctcss > CTCSS_NONE && (next.smode == MODE_NONE || next.smode == MODE_CTCSS) {
        if next.smode != MODE_CTCSS {
            next.smode = MODE_CTCSS;
            next.smode_was = MODE_CTCSS;
        }
        next.smode_timer_ms = config.hold_ms;
    }
    let ghost claimed = next;

    if next.smode == MODE_CTCSS && config.ctcss_tx_enabled != 0 {
        if input.decoded_ctcss != next.last_rx_ctcss {
            next.last_rx_ctcss = input.decoded_ctcss;
            let selected_frequency = if input.decoded_ctcss > CTCSS_NONE {
                config.mapped_tx_ctcss_frequency_tenths_hz[input.decoded_ctcss as usize]
            } else {
                config.default_tx_ctcss_frequency_tenths_hz
            };
            if selected_frequency != 0 && next.tx_ctcss_frequency_tenths_hz != selected_frequency {
                next.tx_ctcss_frequency_tenths_hz = selected_frequency;
                next.tx_ctcss_option = 1;
            }
        }
    } else {
        next.last_rx_ctcss = CTCSS_NONE;
    }
    assert(next == spec_tone_select_step(*config, *input, claimed));

    if input.dcs_valid != 0 && (next.smode == MODE_NONE || next.smode == MODE_DCS) {
        next.smode = MODE_DCS;
        next.smode_was = MODE_DCS;
        next.smode_timer_ms = config.hold_ms;
    }

    *state = next;
    Ok(())
}

/// With no decode, no DCS, and no PTT, splitting the elapsed time of one
/// span into two updates reaches the same mode, last mode, hold timer, and
/// expiry indication as one update over the whole span.
pub proof fn lemma_elapsed_partition(
    config: SignalModeConfig,
    state: SignalModeState,
    first: i32,
    second: i32,
)
    requires
        first >= 0,
        second >= 0,
        first + second <= i32::MAX,
    ensures
        ({
            let quiet = |elapsed: i32| SignalModeInput {
                elapsed_ms: elapsed,
                decoded_ctcss: CTCSS_NONE,
                dcs_valid: 0,
                tx_ptt_in: 0,
            };
            let split = spec_advance(config, quiet(second), spec_advance(config, quiet(first), state));
            let whole = spec_advance(config, quiet((first + second) as i32), state);
            &&& split.smode == whole.smode
            &&& split.smode_was == whole.smode_was
            &&& split.smode_timer_ms == whole.smode_timer_ms
            &&& split.smode_turnoff == whole.smode_turnoff
        }),
{
}

} // verus!
