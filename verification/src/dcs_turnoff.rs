//! Legacy-compatible DCS transmitter turn-off state transitions.
//!
//! The caller keeps the decision to start a DCS tail, waveform generation,
//! PTT, and hardware ownership.  This primitive advances only the scalar
//! ACTIVE/TOC state and timer, and reports (but never performs) the
//! finishing transition.  A rejected call leaves the caller's state untouched.

use vstd::prelude::*;
use crate::timer::{consume, spec_consume_timer, spec_consume_residual};
use crate::RADIO_INVALID_ARGUMENT;

verus! {

/// Transmitter state while normal DCS program audio is active.
pub const STATE_ACTIVE: i32 = 1;
/// Transmitter state while the selected DCS turn-off tail is active.
pub const STATE_TOC: i32 = 2;

/// Immutable DCS turn-off duration selected by the caller.
#[derive(Clone, Copy, Debug, PartialEq, Eq)]
pub struct DcsTurnoffConfig {
    /// DCS turn-off duration in whole milliseconds.
    pub turnoff_duration_ms: i32,
}

/// Native-callback input for one selected DCS turn-off transition.
#[derive(Clone, Copy, Debug, PartialEq, Eq)]
pub struct DcsTurnoffInput {
    /// Whole native PCM milliseconds elapsed in this callback span.
    pub elapsed_ms: i32,
    /// One when the transmitter input PTT is asserted.
    pub tx_ptt_in: u32,
    /// One only when the caller has selected a new DCS tail.
    pub begin_turnoff: u32,
}

/// Caller-owned scalar state for a DCS transmitter turn-off transition.
#[derive(Clone, Copy, Debug, PartialEq, Eq)]
pub struct DcsTurnoffState {
    /// One of [`STATE_ACTIVE`] or [`STATE_TOC`].
    pub tx_state: i32,
    /// Remaining DCS turn-off duration in whole milliseconds.
    pub dcs_turnoff_remaining_ms: i32,
    /// Transmit-hang time cleared when a tail begins.
    pub tx_hang_remaining_ms: i32,
    /// One when the caller must enter its finishing helper.
    pub finish_requested: u32,
    /// Native PCM milliseconds remaining after DCS-tail expiry.
    pub finish_elapsed_ms: i32,
}

impl Default for DcsTurnoffConfig {
    fn default() -> (config: Self)
        ensures
            config.turnoff_duration_ms == 0,
    {
        DcsTurnoffConfig { turnoff_duration_ms: 0 }
    }
}

impl Default for DcsTurnoffInput {
    fn default() -> (input: Self)
        ensures
            input == (DcsTurnoffInput { elapsed_ms: 0, tx_ptt_in: 0, begin_turnoff: 0 }),
    {
        DcsTurnoffInput { elapsed_ms: 0, tx_ptt_in: 0, begin_turnoff: 0 }
    }
}

impl Default for DcsTurnoffState {
    fn default() -> (state: Self)
        ensures
            state == (DcsTurnoffState {
                tx_state: 0,
                dcs_turnoff_remaining_ms: 0,
                tx_hang_remaining_ms: 0,
                finish_requested: 0,
                finish_elapsed_ms: 0,
            }),
    {
        DcsTurnoffState {
            tx_state: 0,
            dcs_turnoff_remaining_ms: 0,
            tx_hang_remaining_ms: 0,
            finish_requested: 0,
            finish_elapsed_ms: 0,
        }
    }
}

/// A tail policy accepted before a stream starts.
pub open spec fn spec_valid_config(config: DcsTurnoffConfig) -> bool {
    config.turnoff_duration_ms > 0
}

/// An input snapshot accepted for one transition.
pub open spec fn spec_valid_input(input: DcsTurnoffInput) -> bool {
    input.elapsed_ms >= 0 && input.tx_ptt_in <= 1 && input.begin_turnoff <= 1
}

/// Whether the current state admits the requested transition.
pub open spec fn spec_transition_allowed(input: DcsTurnoffInput, state: DcsTurnoffState) -> bool {
    if state.tx_state == STATE_ACTIVE {
        input.tx_ptt_in == 0 && input.begin_turnoff != 0
    } else if state.tx_state == STATE_TOC {
        input.begin_turnoff == 0 && state.dcs_turnoff_remaining_ms > 0
    } else {
        false
    }
}

/// Run the tail timer and report expiry with the residual elapsed time.
pub open spec fn spec_run_tail(state: DcsTurnoffState, elapsed_ms: i32) -> DcsTurnoffState {
    let remaining = spec_consume_timer(state.dcs_turnoff_remaining_ms, elapsed_ms);
    let residual = spec_consume_residual(state.dcs_turnoff_remaining_ms, elapsed_ms);
    DcsTurnoffState {
        dcs_turnoff_remaining_ms: remaining,
        finish_requested: if remaining == 0 { 1 } else { 0 },
        finish_elapsed_ms: if remaining == 0 { residual } else { 0 },
        ..state
    }
}

/// The successful transition.
pub open spec fn spec_advance(
    config: DcsTurnoffConfig,
    input: DcsTurnoffInput,
    state: DcsTurnoffState,
) -> DcsTurnoffState {
    if state.tx_state == STATE_ACTIVE {
        spec_run_tail(
            DcsTurnoffState {
                tx_state: STATE_TOC,
                dcs_turnoff_remaining_ms: config.turnoff_duration_ms,
                tx_hang_remaining_ms: 0,
                ..state
            },
            input.elapsed_ms,
        )
    } else if input.tx_ptt_in != 0 {
        DcsTurnoffState {
            dcs_turnoff_remaining_ms: 0,
            tx_state: STATE_ACTIVE,
            finish_requested: 0,
            finish_elapsed_ms: 0,
            ..state
        }
    } else {
        spec_run_tail(state, input.elapsed_ms)
    }
}

/// Validate immutable DCS tail policy before a stream starts.
pub fn validate_config(config: &DcsTurnoffConfig) -> (result: Result<(), i32>)
    ensures
        result is Ok <==> spec_valid_config(*config),
        result matches Err(code) ==> code == RADIO_INVALID_ARGUMENT,
{
    if config.turnoff_duration_ms <= 0 {
        return Err(RADIO_INVALID_ARGUMENT);
    }
    Ok(())
}

/// Validate one input snapshot.
pub fn validate_input(input: &DcsTurnoffInput) -> (result: Result<(), i32>)
    ensures
        result is Ok <==> spec_valid_input(*input),
        result matches Err(code) ==> code == RADIO_INVALID_ARGUMENT,
{
    if input.elapsed_ms < 0 || input.tx_ptt_in > 1 || input.begin_turnoff > 1 {
        return Err(RADIO_INVALID_ARGUMENT);
    }
    Ok(())
}

/// Validate configuration and input together.
pub fn validate(config: &DcsTurnoffConfig, input: &DcsTurnoffInput) -> (result: Result<(), i32>)
    ensures
        result is Ok <==> spec_valid_config(*config) && spec_valid_input(*input),
        result matches Err(code) ==> code == RADIO_INVALID_ARGUMENT,
{
    validate_config(config)?;
    validate_input(input)
}

/// Advance one selected DCS transmitter turn-off transition.
///
/// Entry consumes the callback duration immediately.  A rekey during TOC
/// returns directly to ACTIVE and discards the obsolete tail.  Expiry reports
/// the residual duration for the caller's finishing transition.
pub fn advance(
    config: &DcsTurnoffConfig,
    input: &DcsTurnoffInput,
    state: &mut DcsTurnoffState,
) -> (result: Result<(), i32>)
    ensures
        result is Ok <==> spec_valid_config(*config) && spec_valid_input(*input)
            && spec_transition_allowed(*input, *old(state)),
        result is Ok ==> *final(state) == spec_advance(*config, *input, *old(state)),
        result matches Err(code) ==> code == RADIO_INVALID_ARGUMENT && *final(state) == *old(state),
{
    validate(config, input)?;

    let mut next = *state;
    next.finish_requested = 0;
    next.finish_elapsed_ms = 0;

    if next.tx_state == STATE_ACTIVE {
        if input.tx_ptt_in != 0 || input.begin_turnoff == 0 {
            return Err(RADIO_INVALID_ARGUMENT);
        }
        next.tx_state = STATE_TOC;
        next.dcs_turnoff_remaining_ms = config.turnoff_duration_ms;
        next.tx_hang_remaining_ms = 0;
        let residual = consume(&mut next.dcs_turnoff_remaining_ms, input.elapsed_ms);
        if next.dcs_turnoff_remaining_ms == 0 {
            next.finish_requested = 1;
            next.finish_elapsed_ms = residual;
        }
    } else if next.tx_state == STATE_TOC {
        if input.begin_turnoff != 0 || next.dcs_turnoff_remaining_ms <= 0 {
            return Err(RADIO_INVALID_ARGUMENT);
        }
        if input.tx_ptt_in != 0 {
            next.dcs_turnoff_remaining_ms = 0;
            next.tx_state = STATE_ACTIVE;
        } else {
            let residual = consume(&mut next.dcs_turnoff_remaining_ms, input.elapsed_ms);
            if next.dcs_turnoff_remaining_ms == 0 {
                next.finish_requested = 1;
                next.finish_elapsed_ms = residual;
            }
        }
    } else {
        return Err(RADIO_INVALID_ARGUMENT);
    }

    *state = next;
    Ok(())
}

/// Entering a tail over one span reaches the same state as entering it over
/// the first part of that span and continuing the tail over the rest,
/// provided the tail is still running after the first part.
pub proof fn lemma_tail_partition(
    config: DcsTurnoffConfig,
    state: DcsTurnoffState,
    first: i32,
    second: i32,
)
    requires
        spec_valid_config(config),
        state.tx_state == STATE_ACTIVE,
        first >= 0,
        second >= 0,
        first + second <= i32::MAX,
        first < config.turnoff_duration_ms,
    ensures
        ({
            let enter = |elapsed: i32| DcsTurnoffInput { elapsed_ms: elapsed, tx_ptt_in: 0, begin_turnoff: 1 };
            let hold = DcsTurnoffInput { elapsed_ms: second, tx_ptt_in: 0, begin_turnoff: 0 };
            let entered = spec_advance(config, enter(first), state);
            &&& spec_transition_allowed(hold, entered)
            &&& spec_advance(config, hold, entered)
                == spec_advance(config, enter((first + second) as i32), state)
        }),
{
}

} // verus!
