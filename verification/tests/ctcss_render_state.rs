use lib::ctcss_render_state::{
    advance, CtcssRenderStateInput, RenderControl, ValueUpdate, CTCSS_RENDER_STATE_CONFIG_SIZE, OPTION_DISABLE,
    OPTION_HOLD, OPTION_START, OPTION_TURNOFF, STATE_ACTIVE, STATE_DISABLED, STATE_TURNOFF,
};
use lib::{RADIO_INVALID_ARGUMENT, RADIO_OK};

/// The complete caller-owned render state: the integer control fields and
/// the two carried turn-off values.
#[derive(Clone, Copy, Debug, PartialEq)]
struct CtcssRenderState {
    option: u32,
    oscillator_state: u32,
    enabled: u32,
    turnoff_remaining_ms: i32,
    phase_shift_degrees: f64,
    tail_tone_hz: f64,
}

impl Default for CtcssRenderState {
    fn default() -> Self {
        Self {
            option: OPTION_HOLD,
            oscillator_state: STATE_DISABLED,
            enabled: 0,
            turnoff_remaining_ms: 0,
            phase_shift_degrees: 0.0,
            tail_tone_hz: 0.0,
        }
    }
}

#[derive(Clone, Copy)]
struct CtcssRenderStateConfig {
    struct_size: u32,
    turnoff_duration_ms: i32,
    turnoff_phase_shift_degrees: f64,
    turnoff_tail_tone_hz: f64,
}

fn apply(update: ValueUpdate, current: f64, configured: f64) -> f64 {
    match update {
        ValueUpdate::Keep => current,
        ValueUpdate::Clear => 0.0,
        ValueUpdate::FromConfig => configured,
    }
}

fn radio_ctcss_render_state_advance(
    config: &CtcssRenderStateConfig,
    input: &CtcssRenderStateInput,
    state: &mut CtcssRenderState,
) -> i32 {
    if !config.turnoff_phase_shift_degrees.is_finite()
        || !config.turnoff_tail_tone_hz.is_finite()
        || !state.phase_shift_degrees.is_finite()
        || !state.tail_tone_hz.is_finite()
    {
        return RADIO_INVALID_ARGUMENT;
    }
    let mut control = RenderControl {
        option: state.option,
        oscillator_state: state.oscillator_state,
        enabled: state.enabled,
        turnoff_remaining_ms: state.turnoff_remaining_ms,
    };
    match advance(config.struct_size, config.turnoff_duration_ms, input, &mut control) {
        Ok(effects) => {
            *state = CtcssRenderState {
                option: control.option,
                oscillator_state: control.oscillator_state,
                enabled: control.enabled,
                turnoff_remaining_ms: control.turnoff_remaining_ms,
                phase_shift_degrees: apply(effects.phase_shift, state.phase_shift_degrees, config.turnoff_phase_shift_degrees),
                tail_tone_hz: apply(effects.tail_tone, state.tail_tone_hz, config.turnoff_tail_tone_hz),
            };
            RADIO_OK
        }
        Err(code) => code,
    }
}

fn config() -> CtcssRenderStateConfig {
    CtcssRenderStateConfig {
        struct_size: CTCSS_RENDER_STATE_CONFIG_SIZE,
        turnoff_duration_ms: 180,
        turnoff_phase_shift_degrees: 120.0,
        turnoff_tail_tone_hz: 55.0,
    }
}

fn input(elapsed_ms: i32) -> CtcssRenderStateInput {
    CtcssRenderStateInput { elapsed_ms }
}

#[test]
fn start_request_changes_only_oscillator_render_state() {
    let mut state = CtcssRenderState {
        option: OPTION_START,
        oscillator_state: STATE_DISABLED,
        enabled: 1,
        turnoff_remaining_ms: 42,
        phase_shift_degrees: 4.0,
        tail_tone_hz: 55.0,
    };
    assert_eq!(radio_ctcss_render_state_advance(&config(), &input(20), &mut state), RADIO_OK);
    assert_eq!(state.option, OPTION_HOLD);
    assert_eq!(state.oscillator_state, STATE_ACTIVE);
    assert_eq!(state.enabled, 1);
    assert_eq!(state.turnoff_remaining_ms, 42);
    assert_eq!(state.phase_shift_degrees, 0.0);
    assert_eq!(state.tail_tone_hz, 0.0);
}

#[test]
fn turnoff_request_applies_phase_and_tail_for_its_first_callback() {
    let mut state =
        CtcssRenderState { option: OPTION_TURNOFF, oscillator_state: STATE_ACTIVE, enabled: 1, ..CtcssRenderState::default() };
    assert_eq!(radio_ctcss_render_state_advance(&config(), &input(20), &mut state), RADIO_OK);
    assert_eq!(state.option, OPTION_HOLD);
    assert_eq!(state.oscillator_state, STATE_TURNOFF);
    assert_eq!(state.enabled, 1);
    assert_eq!(state.turnoff_remaining_ms, 160);
    assert_eq!(state.phase_shift_degrees, 120.0);
    assert_eq!(state.tail_tone_hz, 55.0);

    assert_eq!(radio_ctcss_render_state_advance(&config(), &input(20), &mut state), RADIO_OK);
    assert_eq!(state.turnoff_remaining_ms, 140);
    assert_eq!(state.phase_shift_degrees, 0.0);
    assert_eq!(state.tail_tone_hz, 55.0);
}

#[test]
fn completed_turnoff_defers_disable_until_the_next_callback() {
    let mut state = CtcssRenderState {
        oscillator_state: STATE_TURNOFF,
        enabled: 1,
        turnoff_remaining_ms: 20,
        tail_tone_hz: 55.0,
        ..CtcssRenderState::default()
    };
    assert_eq!(radio_ctcss_render_state_advance(&config(), &input(20), &mut state), RADIO_OK);
    assert_eq!(state.option, OPTION_DISABLE);
    assert_eq!(state.oscillator_state, STATE_TURNOFF);
    assert_eq!(state.enabled, 1);
    assert_eq!(state.tail_tone_hz, 55.0);

    assert_eq!(radio_ctcss_render_state_advance(&config(), &input(20), &mut state), RADIO_OK);
    assert_eq!(state.option, OPTION_HOLD);
    assert_eq!(state.oscillator_state, STATE_DISABLED);
    assert_eq!(state.enabled, 0);
    assert_eq!(state.tail_tone_hz, 0.0);
}

#[test]
fn split_callbacks_reach_the_same_turnoff_state() {
    let mut whole =
        CtcssRenderState { option: OPTION_TURNOFF, oscillator_state: STATE_ACTIVE, enabled: 1, ..CtcssRenderState::default() };
    let mut split = whole;
    assert_eq!(radio_ctcss_render_state_advance(&config(), &input(40), &mut whole), RADIO_OK);
    assert_eq!(radio_ctcss_render_state_advance(&config(), &input(20), &mut split), RADIO_OK);
    assert_eq!(radio_ctcss_render_state_advance(&config(), &input(20), &mut split), RADIO_OK);
    assert_eq!(split.option, whole.option);
    assert_eq!(split.oscillator_state, whole.oscillator_state);
    assert_eq!(split.enabled, whole.enabled);
    assert_eq!(split.turnoff_remaining_ms, whole.turnoff_remaining_ms);
    assert_eq!(split.tail_tone_hz, whole.tail_tone_hz);
    assert_eq!(whole.phase_shift_degrees, 120.0);
    assert_eq!(split.phase_shift_degrees, 0.0);
}

#[test]
fn disable_request_clears_only_legacy_output_control_fields() {
    let mut state = CtcssRenderState {
        option: OPTION_DISABLE,
        oscillator_state: STATE_TURNOFF,
        enabled: 1,
        turnoff_remaining_ms: 13,
        phase_shift_degrees: 120.0,
        tail_tone_hz: 55.0,
    };
    assert_eq!(radio_ctcss_render_state_advance(&config(), &input(20), &mut state), RADIO_OK);
    assert_eq!(state.option, OPTION_HOLD);
    assert_eq!(state.oscillator_state, STATE_DISABLED);
    assert_eq!(state.enabled, 0);
    assert_eq!(state.turnoff_remaining_ms, 13);
    assert_eq!(state.phase_shift_degrees, 0.0);
    assert_eq!(state.tail_tone_hz, 0.0);
}

#[test]
fn invalid_inputs_leave_state_unchanged() {
    let baseline = CtcssRenderState {
        option: OPTION_TURNOFF,
        oscillator_state: STATE_ACTIVE,
        enabled: 1,
        turnoff_remaining_ms: 160,
        phase_shift_degrees: 4.0,
        tail_tone_hz: 55.0,
    };
    let mut state = baseline;
    let mut invalid_config = config();

    invalid_config.turnoff_phase_shift_degrees = f64::NAN;
    assert_eq!(radio_ctcss_render_state_advance(&invalid_config, &input(20), &mut state), RADIO_INVALID_ARGUMENT);
    assert_eq!(state, baseline);
    assert_eq!(radio_ctcss_render_state_advance(&config(), &input(-1), &mut state), RADIO_INVALID_ARGUMENT);
    assert_eq!(state, baseline);
    state.option = 4;
    assert_eq!(radio_ctcss_render_state_advance(&config(), &input(20), &mut state), RADIO_INVALID_ARGUMENT);
    assert_eq!(state.option, 4);
}

#[test]
fn short_configuration_and_negative_duration_are_rejected() {
    let mut control = RenderControl::default();
    assert_eq!(advance(CTCSS_RENDER_STATE_CONFIG_SIZE - 1, 0, &input(0), &mut control), Err(RADIO_INVALID_ARGUMENT));
    assert_eq!(advance(CTCSS_RENDER_STATE_CONFIG_SIZE, -1, &input(0), &mut control), Err(RADIO_INVALID_ARGUMENT));
    assert_eq!(control, RenderControl::default());
}
