//! Post-transmit receive-blanking timing.
//!
//! The caller owns the capture buffer and clears the protected prefix.  This
//! module owns the timer arithmetic that decides how many native frames are
//! protected in one span.

use vstd::prelude::*;
use crate::timer::{lemma_elapsed_partition, spec_elapsed_ms, spec_elapsed_remainder, FRAMES_PER_MILLISECOND};
use crate::RADIO_INVALID_ARGUMENT;

verus! {

/// Input snapshot for one post-transmit receive-blanking advance.
#[derive(Clone, Copy, Debug, PartialEq, Eq)]
pub struct RxBlankingInput {
    /// Whole milliseconds elapsed during this native callback.
    pub elapsed_ms: i32,
    /// Native frames supplied in this callback.
    pub native_frame_count: u32,
    /// Fractional-frame remainder before elapsed-time advancement.
    pub sample_remainder_before: u32,
}

/// Caller-owned blanking state updated after one protected native span.
#[derive(Clone, Copy, Debug, PartialEq, Eq)]
pub struct RxBlankingState {
    /// Remaining receive-blanking duration in whole milliseconds.
    pub remaining_ms: i32,
    /// Number of leading native frames that the caller must mute.
    pub blanked_frame_count: u32,
}

impl Default for RxBlankingInput {
    fn default() -> (input: Self)
        ensures
            input == (RxBlankingInput { elapsed_ms: 0, native_frame_count: 0, sample_remainder_before: 0 }),
    {
        RxBlankingInput { elapsed_ms: 0, native_frame_count: 0, sample_remainder_before: 0 }
    }
}

impl Default for RxBlankingState {
    fn default() -> (state: Self)
        ensures
            state == (RxBlankingState { remaining_ms: 0, blanked_frame_count: 0 }),
    {
        RxBlankingState { remaining_ms: 0, blanked_frame_count: 0 }
    }
}

/// Frames still protected: the remaining time in frames, less the frames of
/// the current millisecond already elapsed, and never more than the span.
pub open spec fn spec_blanked_frames(input: RxBlankingInput, remaining_ms: i32) -> int {
    let protected = remaining_ms * (FRAMES_PER_MILLISECOND as int) - input.sample_remainder_before;
    if protected <= 0 {
        0
    } else if protected < input.native_frame_count {
        protected
    } else {
        input.native_frame_count as int
    }
}

/// Advance the receiver-blanking timer over one native span.
pub fn advance(input: &RxBlankingInput, state: &mut RxBlankingState) -> (result: Result<(), i32>)
    ensures
        result is Ok <==> input.elapsed_ms >= 0 && old(state).remaining_ms > 0,
        result is Ok ==> final(state).blanked_frame_count == spec_blanked_frames(*input, old(state).remaining_ms)
            && final(state).remaining_ms == (if input.elapsed_ms >= old(state).remaining_ms { 0 } else {
                old(state).remaining_ms - input.elapsed_ms
            }),
        result matches Err(code) ==> code == RADIO_INVALID_ARGUMENT && *final(state) == *old(state),
{
    if input.elapsed_ms < 0 || state.remaining_ms <= 0 {
        return Err(RADIO_INVALID_ARGUMENT);
    }
    let protected_frames: u64 = (state.remaining_ms as u64) * (FRAMES_PER_MILLISECOND as u64);
    let remainder: u64 = input.sample_remainder_before as u64;
    let after_remainder: u64 = if protected_frames > remainder { protected_frames - remainder } else { 0 };
    let count: u64 = input.native_frame_count as u64;
    let blanked: u64 = if after_remainder < count { after_remainder } else { count };
    state.blanked_frame_count = blanked as u32;
    state.remaining_ms = if input.elapsed_ms >= state.remaining_ms {
        0
    } else {
        state.remaining_ms - input.elapsed_ms
    };
    Ok(())
}

/// One span of the receive path's blanking: frames muted, and the timer and
/// sub-millisecond remainder carried to the next span.  An expired timer
/// mutes nothing.
pub open spec fn spec_blank_span(remaining_ms: int, remainder: u32, native_frames: u32) -> (int, int, int) {
    let elapsed = spec_elapsed_ms(remainder, native_frames);
    let carried = spec_elapsed_remainder(remainder, native_frames);
    if remaining_ms <= 0 {
        (0, remaining_ms, carried)
    } else {
        let protected = remaining_ms * (FRAMES_PER_MILLISECOND as int) - remainder;
        let blanked = if protected <= 0 { 0 } else if protected < native_frames { protected } else { native_frames as int };
        (blanked, if elapsed >= remaining_ms { 0 } else { remaining_ms - elapsed }, carried)
    }
}

/// Blanking a span in two callbacks mutes the same number of leading frames
/// and leaves the same timer as blanking it in one: the protected prefix does
/// not depend on callback partitioning.
pub proof fn lemma_blanking_partition(remaining_ms: int, remainder: u32, first: u32, second: u32)
    requires
        remainder < FRAMES_PER_MILLISECOND,
        first + second <= u32::MAX,
        remaining_ms >= 0,
    ensures
        ({
            let (blanked_first, remaining_middle, carried) = spec_blank_span(remaining_ms, remainder, first);
            let (blanked_second, remaining_split, _) = spec_blank_span(remaining_middle, carried as u32, second);
            let (blanked_whole, remaining_whole, _) = spec_blank_span(remaining_ms, remainder, (first + second) as u32);
            &&& blanked_first + blanked_second == blanked_whole
            &&& remaining_split == remaining_whole
        }),
{
    lemma_elapsed_partition(remainder, first, second);
    let a = remainder + first;
    let e1 = spec_elapsed_ms(remainder, first);
    let q1 = spec_elapsed_remainder(remainder, first);
    assert(a == 48 * e1 + q1 && 0 <= q1 < 48) by {
        vstd::arithmetic::div_mod::lemma_fundamental_div_mod(a, 48);
        vstd::arithmetic::div_mod::lemma_mod_bound(a, 48);
    }
    if remaining_ms > 0 && e1 < remaining_ms {
        assert((remaining_ms - e1) * 48 - q1 == remaining_ms * 48 - remainder - first) by (nonlinear_arith)
            requires a == 48 * e1 + q1, a == remainder + first;
    }
    if remaining_ms > 0 && e1 >= remaining_ms {
        assert(remaining_ms * 48 <= e1 * 48) by (nonlinear_arith)
            requires e1 >= remaining_ms, remaining_ms > 0;
    }
}

} // verus!
