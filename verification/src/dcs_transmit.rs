//! Legacy-compatible DCS transmit symbol timing.
//!
//! The DCS word is sent least-significant bit first at 134.4 baud through a
//! fractional integer clock.  This module owns the configured code, the
//! symbol phase, and the clock, and yields the NRZ level of each native
//! frame; the caller scales levels to PCM and renders the separate 134.4 Hz
//! turn-off sine.

use vstd::prelude::*;
use crate::dcs_code::{configured_code, spec_configured_code, spec_wire_word, wire_word};
use crate::dcs_receive::{CLOCK_INCREMENT, CLOCK_LIMIT, SYMBOL_COUNT};

verus! {

/// Callback-owned state for one native DCS transmitter.
#[derive(Clone, Copy, Debug, PartialEq, Eq)]
pub struct TransmitState {
    /// Configured code, or -1.
    pub code: i32,
    /// Inverted NRZ polarity.
    pub inverted: bool,
    /// Index of the symbol being sent.
    pub phase: u32,
    /// Fractional symbol clock.
    pub bit_accumulator: u32,
}

/// A transmitter whose symbol index and clock are in range.
pub open spec fn spec_transmit_wf(s: TransmitState) -> bool {
    s.phase < SYMBOL_COUNT && s.bit_accumulator < CLOCK_LIMIT
}

/// The level sent in the current frame.
pub open spec fn spec_level(s: TransmitState) -> bool {
    ((spec_wire_word(s.code) >> s.phase) & 1 != 0) != s.inverted
}

/// The transmitter after one native frame.
pub open spec fn spec_tick(s: TransmitState) -> TransmitState {
    let clock = s.bit_accumulator + CLOCK_INCREMENT;
    if clock >= CLOCK_LIMIT {
        TransmitState { bit_accumulator: (clock - CLOCK_LIMIT) as u32, phase: ((s.phase + 1) % (SYMBOL_COUNT as int)) as u32, ..s }
    } else {
        TransmitState { bit_accumulator: clock as u32, ..s }
    }
}

/// The transmitter and the levels sent after `frames` native frames.
pub open spec fn spec_run(s: TransmitState, frames: nat) -> (TransmitState, Seq<bool>)
    decreases frames,
{
    if frames == 0 {
        (s, Seq::empty())
    } else {
        let (before, levels) = spec_run(s, (frames - 1) as nat);
        (spec_tick(before), levels.push(spec_level(before)))
    }
}

/// Each frame keeps the symbol index and clock in range.
proof fn lemma_run_wf(s: TransmitState, frames: nat)
    requires
        spec_transmit_wf(s),
    ensures
        spec_transmit_wf(spec_run(s, frames).0),
        spec_run(s, frames).1.len() == frames,
        spec_run(s, frames).0.code == s.code,
        spec_run(s, frames).0.inverted == s.inverted,
    decreases frames,
{
    if frames > 0 {
        lemma_run_wf(s, (frames - 1) as nat);
    }
}

impl TransmitState {
    /// A transmitter with no code at the start of a word.
    pub fn new() -> (state: Self)
        ensures
            state == (TransmitState { code: 0, inverted: false, phase: 0, bit_accumulator: 0 }),
            spec_transmit_wf(state),
    {
        TransmitState { code: 0, inverted: false, phase: 0, bit_accumulator: 0 }
    }

    /// Apply a configuration change without disturbing the symbol index.
    pub fn configure(&mut self, code: i32, inverted: u32)
        ensures
            *final(self) == (TransmitState {
                code: spec_configured_code(code),
                inverted: inverted != 0,
                bit_accumulator: 0,
                ..*old(self)
            }),
    {
        self.code = configured_code(code);
        self.inverted = inverted != 0;
        self.bit_accumulator = 0;
    }

    /// Send `frame_count` native frames and return their NRZ levels.
    pub fn advance_symbols(&mut self, frame_count: u32) -> (levels: Vec<bool>)
        requires
            spec_transmit_wf(*old(self)),
        ensures
            (*final(self), levels@) == spec_run(*old(self), frame_count as nat),
            spec_transmit_wf(*final(self)),
    {
        let ghost start = *self;
        let word = wire_word(self.code);
        let mut levels: Vec<bool> = Vec::new();
        let mut index: u32 = 0;
        while index < frame_count
            invariant
                index <= frame_count,
                word == spec_wire_word(start.code),
                spec_transmit_wf(start),
                spec_transmit_wf(*self),
                (*self, levels@) == spec_run(start, index as nat),
            decreases frame_count - index,
        {
            proof {
                lemma_run_wf(start, index as nat);
            }
            let mut bit = (word >> self.phase) & 1 != 0;
            if self.inverted {
                bit = !bit;
            }
            levels.push(bit);
            self.bit_accumulator = self.bit_accumulator + CLOCK_INCREMENT;
            if self.bit_accumulator >= CLOCK_LIMIT {
                self.bit_accumulator = self.bit_accumulator - CLOCK_LIMIT;
                self.phase = (self.phase + 1) % SYMBOL_COUNT;
            }
            index = index + 1;
        }
        levels
    }
}

/// Splitting a block of frames in two yields the same levels, in order, and
/// the same final symbol index and clock as sending the block whole.
pub proof fn lemma_run_partition(s: TransmitState, first: nat, second: nat)
    ensures
        ({
            let (middle, head) = spec_run(s, first);
            let (end, tail) = spec_run(middle, second);
            spec_run(s, first + second) == (end, head + tail)
        }),
    decreases second,
{
    if second > 0 {
        lemma_run_partition(s, first, (second - 1) as nat);
        let (middle, head) = spec_run(s, first);
        let (before, tail) = spec_run(middle, (second - 1) as nat);
        assert((head + tail).push(spec_level(before)) =~= head + tail.push(spec_level(before)));
    }
}

} // verus!
