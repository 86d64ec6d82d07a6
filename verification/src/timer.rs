//! Sample-clocked timer arithmetic for the fixed 48 kHz native stream.
//!
//! Timer state is kept in milliseconds while callbacks carry any bounded
//! number of native PCM frames.  These helpers preserve elapsed time across
//! callback partitions without relying on a fixed callback duration.

use vstd::prelude::*;

verus! {

/// Native stream rate of the radio core.
pub const NATIVE_SAMPLE_RATE_HZ: u32 = 48_000;

/// Native PCM frames in one whole millisecond at the native rate.
pub const FRAMES_PER_MILLISECOND: u32 = 48;

/// Whole milliseconds contained in `remainder + native_frames` native frames.
pub open spec fn spec_elapsed_ms(remainder: u32, native_frames: u32) -> int {
    (remainder + native_frames) / (FRAMES_PER_MILLISECOND as int)
}

/// Sub-millisecond frames carried to the next span.
pub open spec fn spec_elapsed_remainder(remainder: u32, native_frames: u32) -> int {
    (remainder + native_frames) % (FRAMES_PER_MILLISECOND as int)
}

/// Convert one bounded native-frame span to whole elapsed milliseconds.
///
/// `remainder` retains sub-millisecond native frames between calls.  The
/// `u32` inputs bound the quotient well inside `i32`.
pub fn elapsed_ms(remainder: &mut u32, native_frames: u32) -> (milliseconds: i32)
    ensures
        milliseconds == spec_elapsed_ms(*old(remainder), native_frames),
        *final(remainder) == spec_elapsed_remainder(*old(remainder), native_frames),
        0 <= milliseconds,
        *final(remainder) < FRAMES_PER_MILLISECOND,
{
    let elapsed: u64 = *remainder as u64 + native_frames as u64;
    let frames_per_millisecond: u64 = FRAMES_PER_MILLISECOND as u64;
    let milliseconds: u64 = elapsed / frames_per_millisecond;
    *remainder = (elapsed % frames_per_millisecond) as u32;
    milliseconds as i32
}

/// Timer value after consuming `milliseconds`.
pub open spec fn spec_consume_timer(timer: i32, milliseconds: i32) -> i32 {
    if timer <= 0 || milliseconds <= 0 {
        timer
    } else if milliseconds >= timer {
        0
    } else {
        (timer - milliseconds) as i32
    }
}

/// Duration left over after consuming `milliseconds` from `timer`.
pub open spec fn spec_consume_residual(timer: i32, milliseconds: i32) -> i32 {
    if timer <= 0 || milliseconds <= 0 {
        milliseconds
    } else if milliseconds >= timer {
        (milliseconds - timer) as i32
    } else {
        0
    }
}

/// Consume elapsed milliseconds from a timer and return time after expiry.
///
/// A nonpositive timer or elapsed duration leaves the timer unchanged and
/// returns the supplied duration.  Otherwise, expiry clears the timer and
/// returns its residual duration so a successor state begins at the same PCM
/// sample time.
pub fn consume(timer: &mut i32, milliseconds: i32) -> (residual: i32)
    ensures
        *final(timer) == spec_consume_timer(*old(timer), milliseconds),
        residual == spec_consume_residual(*old(timer), milliseconds),
{
    if *timer <= 0 || milliseconds <= 0 {
        return milliseconds;
    }
    if milliseconds >= *timer {
        let residual = milliseconds - *timer;
        *timer = 0;
        return residual;
    }
    *timer = *timer - milliseconds;
    0
}

/// Splitting a native span in two yields the same total elapsed milliseconds
/// and the same carried remainder as processing it whole.
pub proof fn lemma_elapsed_partition(remainder: u32, first: u32, second: u32)
    requires
        remainder < FRAMES_PER_MILLISECOND,
        first + second <= u32::MAX,
    ensures
        ({
            let middle = spec_elapsed_remainder(remainder, first) as u32;
            &&& spec_elapsed_ms(remainder, first) + spec_elapsed_ms(middle, second)
                == spec_elapsed_ms(remainder, (first + second) as u32)
            &&& spec_elapsed_remainder(middle, second)
                == spec_elapsed_remainder(remainder, (first + second) as u32)
        }),
{
    let a = remainder as int + first as int;
    let m = a % 48;
    assert(a == 48 * (a / 48) + m) by (nonlinear_arith)
        requires m == a % 48, a >= 0;
    let b = m + second as int;
    assert(b == 48 * (b / 48) + b % 48) by (nonlinear_arith)
        requires b >= 0;
    let c = remainder as int + first as int + second as int;
    assert(c == 48 * (c / 48) + c % 48) by (nonlinear_arith)
        requires c >= 0;
    assert(c == 48 * (a / 48) + b);
    assert(0 <= b % 48 < 48);
    assert(0 <= c % 48 < 48);
    assert(c / 48 == a / 48 + b / 48 && c % 48 == b % 48) by (nonlinear_arith)
        requires
            c == 48 * (c / 48) + c % 48,
            c == 48 * (a / 48) + b,
            b == 48 * (b / 48) + b % 48,
            0 <= b % 48 < 48,
            0 <= c % 48 < 48;
}

/// Consuming two positive durations in turn leaves the timer where consuming
/// their sum does, and the residuals add up to the single residual.
pub proof fn lemma_consume_partition(timer: i32, first: i32, second: i32)
    requires
        first >= 0,
        second >= 0,
        first + second <= i32::MAX,
    ensures
        ({
            let middle = spec_consume_timer(timer, first);
            let whole = (first + second) as i32;
            &&& spec_consume_timer(middle, second) == spec_consume_timer(timer, whole)
            &&& timer > 0 ==> spec_consume_residual(timer, first) + spec_consume_residual(middle, second)
                == spec_consume_residual(timer, whole)
        }),
{
}

} // verus!
