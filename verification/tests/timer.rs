use lib::timer::{consume, elapsed_ms, FRAMES_PER_MILLISECOND, NATIVE_SAMPLE_RATE_HZ};
use lib::{RADIO_INVALID_ARGUMENT, RADIO_OK};

#[test]
fn callback_partitions_preserve_elapsed_time_and_expiration_sample() {
    let mut whole_remainder = 0;
    let whole_elapsed = elapsed_ms(&mut whole_remainder, 960);
    let mut whole_timer = 17;
    let whole_residual = consume(&mut whole_timer, whole_elapsed);

    let mut split_remainder = 0;
    let mut split_timer = 17;
    let mut split_residual = 0;
    for frames in [1, 47, 480, 432] {
        split_residual = consume(&mut split_timer, elapsed_ms(&mut split_remainder, frames));
    }

    assert_eq!(whole_elapsed, 20);
    assert_eq!(whole_remainder, split_remainder);
    assert_eq!(whole_timer, split_timer);
    assert_eq!(whole_residual, split_residual);
}

#[test]
fn fractional_remainder_is_carried_exactly_between_callbacks() {
    let mut remainder = FRAMES_PER_MILLISECOND - 1;

    assert_eq!(elapsed_ms(&mut remainder, 0), 0);
    assert_eq!(remainder, FRAMES_PER_MILLISECOND - 1);
    assert_eq!(elapsed_ms(&mut remainder, 1), 1);
    assert_eq!(remainder, 0);
    assert_eq!(elapsed_ms(&mut remainder, FRAMES_PER_MILLISECOND - 1), 0);
    assert_eq!(remainder, FRAMES_PER_MILLISECOND - 1);
    assert_eq!(NATIVE_SAMPLE_RATE_HZ, 48_000);
}

#[test]
fn nonpositive_timer_or_duration_is_a_noop() {
    let mut expired = 0;
    assert_eq!(consume(&mut expired, 7), 7);
    assert_eq!(expired, 0);

    let mut disabled = -3;
    assert_eq!(consume(&mut disabled, 7), 7);
    assert_eq!(disabled, -3);

    let mut active = 7;
    assert_eq!(consume(&mut active, 0), 0);
    assert_eq!(active, 7);
    assert_eq!(consume(&mut active, -2), -2);
    assert_eq!(active, 7);
}

#[test]
fn expiration_returns_only_the_residual_duration() {
    let mut exact = 10;
    assert_eq!(consume(&mut exact, 10), 0);
    assert_eq!(exact, 0);

    let mut late = 10;
    assert_eq!(consume(&mut late, 14), 4);
    assert_eq!(late, 0);

    let mut early = 10;
    assert_eq!(consume(&mut early, 9), 0);
    assert_eq!(early, 1);
}

/// The descriptor's timer entries return their result through an output
/// argument; an absent argument is rejected before any arithmetic.
fn radio_elapsed_ms(remainder: Option<&mut u32>, native_frames: u32, output: &mut i32) -> i32 {
    match remainder {
        Some(remainder) => {
            *output = elapsed_ms(remainder, native_frames);
            RADIO_OK
        }
        None => RADIO_INVALID_ARGUMENT,
    }
}

fn radio_timer_consume(timer: &mut i32, milliseconds: i32, residual: Option<&mut i32>) -> i32 {
    match residual {
        Some(residual) => {
            *residual = consume(timer, milliseconds);
            RADIO_OK
        }
        None => RADIO_INVALID_ARGUMENT,
    }
}

#[test]
fn timer_descriptor_preserves_sample_clocked_compatibility_arithmetic() {
    let mut remainder = 47_u32;
    let mut elapsed = -1_i32;
    let mut timer = 2_i32;
    let mut residual = -1_i32;

    assert_eq!(radio_elapsed_ms(Some(&mut remainder), 49, &mut elapsed), RADIO_OK);
    assert_eq!(elapsed, 2);
    assert_eq!(remainder, 0);
    assert_eq!(radio_timer_consume(&mut timer, elapsed, Some(&mut residual)), RADIO_OK);
    assert_eq!(timer, 0);
    assert_eq!(residual, 0);
    assert_eq!(radio_elapsed_ms(None, 48, &mut elapsed), RADIO_INVALID_ARGUMENT);
    assert_eq!(radio_timer_consume(&mut timer, 1, None), RADIO_INVALID_ARGUMENT);
}
