//! Legacy-compatible receiver CPU-saver transition state.
//!
//! The receive loop halts its voice DSP only while the receiver is idle,
//! unkeyed, and not participating in a signaling mode.  This module owns that
//! predicate and the transition label; the caller performs the stage writes.

use vstd::prelude::*;
use crate::RADIO_INVALID_ARGUMENT;

verus! {

/// No receiver CPU-saver transition is required.
pub const ACTION_NONE: u32 = 0;
/// The caller must enter receiver CPU saving.
pub const ACTION_ENTER: u32 = 1;
/// The caller must leave receiver CPU saving.
pub const ACTION_LEAVE: u32 = 2;

/// Immutable receiver activity snapshot for one CPU-saver decision.
#[derive(Clone, Copy, Debug, PartialEq, Eq)]
pub struct RxCpuSaverInput {
    /// One when the receiver CPU saver is enabled.
    pub enabled: u32,
    /// One when the carrier decision is asserted.
    pub carrier_detect: u32,
    /// One when the signaling state is idle.
    pub signal_mode_null: u32,
    /// One when logical transmitter input PTT is asserted.
    pub tx_ptt_in: u32,
    /// One when logical transmitter output PTT is asserted.
    pub tx_ptt_out: u32,
}

/// Caller-owned receiver halt state and stage-transition action.
#[derive(Clone, Copy, Debug, PartialEq, Eq)]
pub struct RxCpuSaverState {
    /// One while the receive DSP is halted.
    pub halted: u32,
    /// Zero for no change, one for enter, or two for leave.
    pub action: u32,
}

impl Default for RxCpuSaverInput {
    fn default() -> (input: Self)
        ensures
            input == (RxCpuSaverInput {
                enabled: 0,
                carrier_detect: 0,
                signal_mode_null: 0,
                tx_ptt_in: 0,
                tx_ptt_out: 0,
            }),
    {
        RxCpuSaverInput { enabled: 0, carrier_detect: 0, signal_mode_null: 0, tx_ptt_in: 0, tx_ptt_out: 0 }
    }
}

impl Default for RxCpuSaverState {
    fn default() -> (state: Self)
        ensures
            state == (RxCpuSaverState { halted: 0, action: 0 }),
    {
        RxCpuSaverState { halted: 0, action: 0 }
    }
}

/// Every flag is a boolean and the prior halt state is a boolean.
pub open spec fn spec_valid(input: RxCpuSaverInput, state: RxCpuSaverState) -> bool {
    &&& input.enabled <= 1
    &&& input.carrier_detect <= 1
    &&& input.signal_mode_null <= 1
    &&& input.tx_ptt_in <= 1
    &&& input.tx_ptt_out <= 1
    &&& state.halted <= 1
}

/// The receiver halts only when enabled, idle, unkeyed, and outside any mode.
pub open spec fn spec_halted(input: RxCpuSaverInput) -> bool {
    input.enabled != 0 && input.carrier_detect == 0 && input.signal_mode_null != 0
        && input.tx_ptt_in == 0 && input.tx_ptt_out == 0
}

/// The stage action for a change from `previous` to `halted`.
pub open spec fn spec_action(previous: u32, halted: u32) -> u32 {
    if halted == previous {
        ACTION_NONE
    } else if halted != 0 {
        ACTION_ENTER
    } else {
        ACTION_LEAVE
    }
}

/// Advance one receiver CPU-saver decision.
pub fn advance(input: &RxCpuSaverInput, state: &mut RxCpuSaverState) -> (result: Result<(), i32>)
    ensures
        result is Ok <==> spec_valid(*input, *old(state)),
        result is Ok ==> final(state).halted == (if spec_halted(*input) { 1u32 } else { 0u32 })
            && final(state).action == spec_action(old(state).halted, final(state).halted),
        result matches Err(code) ==> code == RADIO_INVALID_ARGUMENT && *final(state) == *old(state),
{
    if input.enabled > 1 || input.carrier_detect > 1 || input.signal_mode_null > 1
        || input.tx_ptt_in > 1 || input.tx_ptt_out > 1 || state.halted > 1
    {
        return Err(RADIO_INVALID_ARGUMENT);
    }
    let halted: u32 = if input.enabled != 0 && input.carrier_detect == 0
        && input.signal_mode_null != 0 && input.tx_ptt_in == 0 && input.tx_ptt_out == 0
    {
        1
    } else {
        0
    };
    let action = if halted == state.halted {
        ACTION_NONE
    } else if halted != 0 {
        ACTION_ENTER
    } else {
        ACTION_LEAVE
    };
    *state = RxCpuSaverState { halted, action };
    Ok(())
}

} // verus!
