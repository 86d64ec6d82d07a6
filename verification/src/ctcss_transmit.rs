//! Integer core of the legacy CTCSS transmit oscillator frequency.
//!
//! The deployed oscillator advanced a 256-entry sine table at 8 kHz with a
//! fixed increment in 1/128 steps; its effective frequency is the increment
//! that the tone's tenths of a hertz truncate to.

use vstd::prelude::*;

verus! {

/// Entries of the legacy sine table.
pub const LEGACY_SINE_STEPS: i64 = 256;

/// The legacy fixed-point table increment for a tone in tenths of a hertz:
/// `256 * tenths * 128 / 8000 / 10`, each division truncating.
pub open spec fn spec_legacy_step(frequency_tenths: int) -> int {
    (LEGACY_SINE_STEPS * frequency_tenths * 128 / 8_000) / 10
}

/// The legacy fixed-point table increment for a tone in tenths of a hertz.
pub fn legacy_step(frequency_tenths: i64) -> (step: i64)
    requires
        0 <= frequency_tenths <= 1_000_000,
    ensures
        step == spec_legacy_step(frequency_tenths as int),
{
    LEGACY_SINE_STEPS * frequency_tenths * 128 / 8_000 / 10
}

} // verus!
