use lib::rx_blanking::{advance, RxBlankingInput, RxBlankingState};
use lib::{RADIO_INVALID_ARGUMENT, RADIO_OK};

fn radio_rx_blanking_advance(input: &RxBlankingInput, state: &mut RxBlankingState) -> i32 {
    match advance(input, state) {
        Ok(()) => RADIO_OK,
        Err(code) => code,
    }
}

#[test]
fn whole_callback_blanks_and_expires_at_the_legacy_boundary() {
    let input = RxBlankingInput { elapsed_ms: 20, native_frame_count: 960, sample_remainder_before: 0 };
    let mut state = RxBlankingState { remaining_ms: 20, blanked_frame_count: 0 };
    assert_eq!(radio_rx_blanking_advance(&input, &mut state), RADIO_OK);
    assert_eq!(state.blanked_frame_count, 960);
    assert_eq!(state.remaining_ms, 0);
}

#[test]
fn submillisecond_callback_partition_preserves_the_protected_prefix() {
    let mut state = RxBlankingState { remaining_ms: 1, blanked_frame_count: 0 };
    let first = RxBlankingInput { elapsed_ms: 0, native_frame_count: 36, sample_remainder_before: 0 };
    let second = RxBlankingInput { elapsed_ms: 1, native_frame_count: 36, sample_remainder_before: 36 };
    assert_eq!(radio_rx_blanking_advance(&first, &mut state), RADIO_OK);
    assert_eq!(state.blanked_frame_count, 36);
    assert_eq!(state.remaining_ms, 1);
    assert_eq!(radio_rx_blanking_advance(&second, &mut state), RADIO_OK);
    assert_eq!(state.blanked_frame_count, 12);
    assert_eq!(state.remaining_ms, 0);
}

#[test]
fn unusual_restored_remainder_uses_the_legacy_zero_prefix_rule() {
    let input = RxBlankingInput { elapsed_ms: 1, native_frame_count: 48, sample_remainder_before: u32::MAX };
    let mut state = RxBlankingState { remaining_ms: 1, blanked_frame_count: 99 };
    assert_eq!(radio_rx_blanking_advance(&input, &mut state), RADIO_OK);
    assert_eq!(state.blanked_frame_count, 0);
    assert_eq!(state.remaining_ms, 0);
}

#[test]
fn zero_span_keeps_an_active_timer_without_muting() {
    let input = RxBlankingInput { elapsed_ms: 0, native_frame_count: 0, sample_remainder_before: 0 };
    let mut state = RxBlankingState { remaining_ms: 1, blanked_frame_count: 99 };
    assert_eq!(radio_rx_blanking_advance(&input, &mut state), RADIO_OK);
    assert_eq!(state.blanked_frame_count, 0);
    assert_eq!(state.remaining_ms, 1);
}

#[test]
fn invalid_input_and_nulls_do_not_commit_state() {
    let invalid = RxBlankingInput { elapsed_ms: -1, native_frame_count: 48, sample_remainder_before: 0 };
    let before = RxBlankingState { remaining_ms: 1, blanked_frame_count: 19 };
    let mut state = before;
    assert_eq!(radio_rx_blanking_advance(&invalid, &mut state), RADIO_INVALID_ARGUMENT);
    assert_eq!(state, before);
}
