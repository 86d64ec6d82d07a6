//! Legacy-compatible CTCSS render-state transitions.
//!
//! The operation consumes only a request that the transmitter state machine
//! has already selected: start the tone, begin the configured turn-off
//! sequence, disable it, or hold.  The turn-off sequence's phase adjustment
//! and replacement tail tone are configuration values carried through; the
//! transition reports which of them the renderer takes for this callback.

use vstd::prelude::*;
use crate::RADIO_INVALID_ARGUMENT;
use crate::timer::{consume, spec_consume_timer};

verus! {

/// Keep the current CTCSS render state unchanged apart from the phase reset.
pub const OPTION_HOLD: u32 = 0;
/// Begin rendering the selected CTCSS tone.
pub const OPTION_START: u32 = 1;
/// Begin the configured CTCSS turn-off sequence.
pub const OPTION_TURNOFF: u32 = 2;
/// Disable CTCSS rendering.
pub const OPTION_DISABLE: u32 = 3;

/// CTCSS oscillator is disabled.
pub const STATE_DISABLED: u32 = 0;
/// CTCSS oscillator emits its selected normal tone.
pub const STATE_ACTIVE: u32 = 1;
/// CTCSS oscillator emits a configured turn-off sequence.
pub const STATE_TURNOFF: u32 = 2;

/// Byte size of the C-compatible render configuration: a size word, the
/// turn-off duration, and two double-precision turn-off values.
pub const CTCSS_RENDER_STATE_CONFIG_SIZE: u32 = 24;

/// Elapsed native PCM duration supplied by the compatibility adapter.
#[derive(Clone, Copy, Debug, PartialEq, Eq, Structural)]
pub struct CtcssRenderStateInput {
    /// Whole elapsed milliseconds for this native callback span.
    pub elapsed_ms: i32,
}

impl Default for CtcssRenderStateInput {
    fn default() -> (input: Self)
        ensures
            input.elapsed_ms == 0,
    {
        CtcssRenderStateInput { elapsed_ms: 0 }
    }
}

/// The integer part of the caller-owned CTCSS render state.
#[derive(Clone, Copy, Debug, PartialEq, Eq, Structural)]
pub struct RenderControl {
    /// One of [`OPTION_HOLD`] through [`OPTION_DISABLE`].
    pub option: u32,
    /// One of [`STATE_DISABLED`] through [`STATE_TURNOFF`].
    pub oscillator_state: u32,
    /// One while the renderer should emit the selected CTCSS source.
    pub enabled: u32,
    /// Milliseconds remaining in an active turn-off sequence.
    pub turnoff_remaining_ms: i32,
}

impl Default for RenderControl {
    fn default() -> (control: Self)
        ensures
            control == (RenderControl { option: OPTION_HOLD, oscillator_state: STATE_DISABLED, enabled: 0, turnoff_remaining_ms: 0 }),
    {
        RenderControl { option: OPTION_HOLD, oscillator_state: STATE_DISABLED, enabled: 0, turnoff_remaining_ms: 0 }
    }
}

/// How one callback updates a carried turn-off value.
#[derive(Clone, Copy, Debug, PartialEq, Eq, Structural)]
pub enum ValueUpdate {
    /// Keep the value from the previous callback.
    Keep,
    /// Reset the value to zero.
    Clear,
    /// Take the configured turn-off value.
    FromConfig,
}

/// The turn-off values the renderer uses for this callback.  The phase
/// adjustment applies to one callback only; otherwise it is zero.
#[derive(Clone, Copy, Debug, PartialEq, Eq, Structural)]
pub struct RenderEffects {
    /// Update of the phase adjustment (never kept).
    pub phase_shift: ValueUpdate,
    /// Update of the replacement tail tone.
    pub tail_tone: ValueUpdate,
}

/// Whether the integer configuration fields are accepted.
pub open spec fn spec_config_valid(struct_size: u32, turnoff_duration_ms: i32) -> bool {
    struct_size >= CTCSS_RENDER_STATE_CONFIG_SIZE && turnoff_duration_ms >= 0
}

/// Validate the integer configuration fields; the caller checks that the
/// two carried turn-off values are finite.
pub fn validate_config(struct_size: u32, turnoff_duration_ms: i32) -> (result: Result<(), i32>)
    ensures
        result is Ok <==> spec_config_valid(struct_size, turnoff_duration_ms),
        result matches Err(code) ==> code == RADIO_INVALID_ARGUMENT,
{
    if struct_size < CTCSS_RENDER_STATE_CONFIG_SIZE || turnoff_duration_ms < 0 {
        return Err(RADIO_INVALID_ARGUMENT);
    }
    Ok(())
}

/// Reject negative elapsed time.
pub fn validate_input(input: &CtcssRenderStateInput) -> (result: Result<(), i32>)
    ensures
        result is Ok <==> input.elapsed_ms >= 0,
        result matches Err(code) ==> code == RADIO_INVALID_ARGUMENT,
{
    if input.elapsed_ms < 0 {
        return Err(RADIO_INVALID_ARGUMENT);
    }
    Ok(())
}

/// Whether the integer state fields are in range.
pub open spec fn spec_control_valid(control: RenderControl) -> bool {
    &&& control.option <= OPTION_DISABLE
    &&& control.oscillator_state <= STATE_TURNOFF
    &&& control.enabled <= 1
    &&& control.turnoff_remaining_ms >= 0
}

/// Validate the integer state fields; the caller checks that the two carried
/// turn-off values are finite.
pub fn validate_state(control: &RenderControl) -> (result: Result<(), i32>)
    ensures
        result is Ok <==> spec_control_valid(*control),
        result matches Err(code) ==> code == RADIO_INVALID_ARGUMENT,
{
    if control.option > OPTION_DISABLE || control.oscillator_state > STATE_TURNOFF || control.enabled > 1
        || control.turnoff_remaining_ms < 0
    {
        return Err(RADIO_INVALID_ARGUMENT);
    }
    Ok(())
}

/// The control state and effects of one transition from a valid state.
pub open spec fn spec_advance(turnoff_duration_ms: i32, elapsed_ms: i32, control: RenderControl) -> (RenderControl, RenderEffects) {
    if control.option == OPTION_HOLD {
        let next = if control.oscillator_state == STATE_TURNOFF {
            let remaining = spec_consume_timer(control.turnoff_remaining_ms, elapsed_ms);
            RenderControl {
                turnoff_remaining_ms: remaining,
                option: if remaining == 0 { OPTION_DISABLE } else { control.option },
                ..control
            }
        } else {
            control
        };
        (next, RenderEffects { phase_shift: ValueUpdate::Clear, tail_tone: ValueUpdate::Keep })
    } else if control.option == OPTION_START {
        (
            RenderControl { option: OPTION_HOLD, oscillator_state: STATE_ACTIVE, ..control },
            RenderEffects { phase_shift: ValueUpdate::Clear, tail_tone: ValueUpdate::Clear },
        )
    } else if control.option == OPTION_TURNOFF {
        (
            RenderControl {
                option: OPTION_HOLD,
                oscillator_state: STATE_TURNOFF,
                turnoff_remaining_ms: (turnoff_duration_ms - elapsed_ms) as i32,
                ..control
            },
            RenderEffects { phase_shift: ValueUpdate::FromConfig, tail_tone: ValueUpdate::FromConfig },
        )
    } else {
        (
            RenderControl { option: OPTION_HOLD, oscillator_state: STATE_DISABLED, enabled: 0, ..control },
            RenderEffects { phase_shift: ValueUpdate::Clear, tail_tone: ValueUpdate::Clear },
        )
    }
}

/// Advance one CTCSS render-state transition.
///
/// Every callback clears the phase adjustment before consuming a one-shot
/// option.  A turn-off option consumes the callback's elapsed time at
/// creation; an active turn-off consumes it from its remaining time and
/// requests disable only for the next callback.  A rejected call changes
/// nothing.
pub fn advance(
    struct_size: u32,
    turnoff_duration_ms: i32,
    input: &CtcssRenderStateInput,
    control: &mut RenderControl,
) -> (result: Result<RenderEffects, i32>)
    ensures
        result is Ok <==> (spec_config_valid(struct_size, turnoff_duration_ms) && input.elapsed_ms >= 0
            && spec_control_valid(*old(control))),
        result matches Err(code) ==> code == RADIO_INVALID_ARGUMENT && *final(control) == *old(control),
        result matches Ok(effects) ==> (*final(control), effects) == spec_advance(
            turnoff_duration_ms,
            input.elapsed_ms,
            *old(control),
        ),
{
    validate_config(struct_size, turnoff_duration_ms)?;
    validate_input(input)?;
    validate_state(control)?;
    if control.option == OPTION_HOLD {
        if control.oscillator_state == STATE_TURNOFF {
            let _ = consume(&mut control.turnoff_remaining_ms, input.elapsed_ms);
            if control.turnoff_remaining_ms == 0 {
                control.option = OPTION_DISABLE;
            }
        }
        Ok(RenderEffects { phase_shift: ValueUpdate::Clear, tail_tone: ValueUpdate::Keep })
    } else if control.option == OPTION_START {
        control.option = OPTION_HOLD;
        control.oscillator_state = STATE_ACTIVE;
        Ok(RenderEffects { phase_shift: ValueUpdate::Clear, tail_tone: ValueUpdate::Clear })
    } else if control.option == OPTION_TURNOFF {
        control.option = OPTION_HOLD;
        control.oscillator_state = STATE_TURNOFF;
        // Both values are validated non-negative, so the difference cannot saturate.
        control.turnoff_remaining_ms = turnoff_duration_ms - input.elapsed_ms;
        Ok(RenderEffects { phase_shift: ValueUpdate::FromConfig, tail_tone: ValueUpdate::FromConfig })
    } else {
        control.option = OPTION_HOLD;
        control.oscillator_state = STATE_DISABLED;
        control.enabled = 0;
        Ok(RenderEffects { phase_shift: ValueUpdate::Clear, tail_tone: ValueUpdate::Clear })
    }
}

/// A turn-off sequence requests disable once its duration has elapsed,
/// however the callbacks partition it: the remaining time after two holds
/// equals that after one hold of their combined length.
pub proof fn lemma_turnoff_partition(turnoff_duration_ms: i32, first: i32, second: i32, control: RenderControl)
    requires
        first >= 0,
        second >= 0,
        first + second <= i32::MAX,
        control.option == OPTION_HOLD,
        control.oscillator_state == STATE_TURNOFF,
        control.turnoff_remaining_ms > 0,
    ensures
        ({
            let (middle, _) = spec_advance(turnoff_duration_ms, first, control);
            let (split, _) = spec_advance(turnoff_duration_ms, second, middle);
            let (whole, _) = spec_advance(turnoff_duration_ms, (first + second) as i32, control);
            middle.option == OPTION_HOLD ==> split.turnoff_remaining_ms == whole.turnoff_remaining_ms
                && split.option == whole.option
        }),
{
}

} // verus!
