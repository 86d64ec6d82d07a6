//! Legacy-compatible native DCS receive qualification: sixteen symbol-timing
//! hypotheses, Golay correction, two-word qualification with a one-word hold,
//! and the slow Q15 DC tracker.
//!
//! The 134.4 Hz turn-off tone detector works in floating point and is driven
//! by the caller; it tells each sample step whether a turn-off tail is
//! active, and starting a tail clears qualification.

use vstd::prelude::*;
use crate::dcs_code::{lemma_clean_word_decodes, lemma_syndrome_zero_entry, spec_code_supported, spec_wire_word, configured_code, decode_word, spec_configured_code, spec_decode_word, spec_syndrome_table, syndrome_table, SYNDROME_COUNT, WORD_MASK};
use crate::fixed_point::trunc_div;
use crate::dcs_transmit::{spec_level, TransmitState};

verus! {

/// Symbol clock scale: clock units per native frame rate unit.
pub const CLOCK_SCALE: u32 = 10;
/// Clock units added per native frame: 134.4 baud in tenths.
pub const CLOCK_INCREMENT: u32 = 1_344;
/// Clock units per symbol at 48 kHz.
pub const CLOCK_LIMIT: u32 = 480_000;
/// Symbols per DCS word.
pub const SYMBOL_COUNT: u32 = 23;
/// Number of symbol-timing hypotheses.
pub const PHASE_COUNT: usize = 16;
/// Q15 scale of the DC tracker.
pub const DC_TRACKER_SCALE: i64 = 32_768;
/// Largest native code magnitude the DC tracker accepts; it keeps every
/// centered sample well inside signed 32 bits.
pub const MAX_SAMPLE_MAGNITUDE: i32 = 536_870_912;
/// Largest magnitude the Q15 DC estimate can reach.
pub const MAX_DC_ESTIMATE: i64 = 17_592_186_044_416;

/// State for one symbol-timing hypothesis.
#[derive(Clone, Copy, Debug, PartialEq, Eq)]
pub struct ReceivePhase {
    /// Shift register of the last 23 symbols, newest in bit 22.
    pub word: u32,
    /// Symbol clock.
    pub bit_accumulator: u32,
    /// Symbols of hold left while qualified.
    pub hold: u32,
    /// Symbols since the last matching word.
    pub symbols_since_match: u32,
    /// Consecutive matching words, saturating at two.
    pub match_count: u8,
    /// Whether this hypothesis qualifies the configured code.
    pub qualified: bool,
    /// Sum of centered samples over the current symbol.
    pub sample_accumulator: i64,
}

/// A fresh hypothesis with its symbol clock at `clock`.
pub open spec fn spec_fresh_phase(clock: u32) -> ReceivePhase {
    ReceivePhase {
        word: 0,
        bit_accumulator: clock,
        hold: 0,
        symbols_since_match: 0,
        match_count: 0,
        qualified: false,
        sample_accumulator: 0,
    }
}

impl Default for ReceivePhase {
    fn default() -> (phase: Self)
        ensures
            phase == spec_fresh_phase(0),
    {
        ReceivePhase {
            word: 0,
            bit_accumulator: 0,
            hold: 0,
            symbols_since_match: 0,
            match_count: 0,
            qualified: false,
            sample_accumulator: 0,
        }
    }
}

/// One received symbol shifted into a hypothesis.
pub open spec fn spec_receive_symbol(syndrome: Seq<u32>, receive_code: i32, r: ReceivePhase, bit: bool) -> ReceivePhase {
    let since = r.symbols_since_match.wrapping_add(1);
    let word = ((r.word >> 1u32) | ((if bit { 1u32 } else { 0u32 }) << 22u32)) & WORD_MASK;
    if spec_decode_word(syndrome, receive_code, word) {
        let count: u8 = if r.match_count != 0 && since == SYMBOL_COUNT {
            if r.match_count < 2 { (r.match_count + 1) as u8 } else { r.match_count }
        } else {
            1
        };
        let qualifies = count >= 2;
        ReceivePhase {
            word,
            symbols_since_match: 0,
            match_count: count,
            qualified: if qualifies { true } else { r.qualified },
            hold: if qualifies { SYMBOL_COUNT } else { r.hold },
            ..r
        }
    } else if r.qualified {
        let hold = r.hold.wrapping_sub(1);
        if hold == 0 {
            ReceivePhase { word, symbols_since_match: since, hold, qualified: false, match_count: 0, ..r }
        } else {
            ReceivePhase { word, symbols_since_match: since, hold, ..r }
        }
    } else {
        ReceivePhase { word, symbols_since_match: since, ..r }
    }
}

/// Shift one received symbol into a hypothesis and update qualification.
///
/// Two matching words exactly one word apart qualify; a matching word at any
/// other spacing restarts the count.  A qualified hypothesis holds for one
/// word of non-matching symbols.
pub fn process_received_symbol(syndrome: &Vec<u32>, receive_code: i32, receiver: &mut ReceivePhase, bit: bool)
    requires
        syndrome.len() == SYNDROME_COUNT,
    ensures
        *final(receiver) == spec_receive_symbol(syndrome@, receive_code, *old(receiver), bit),
{
    receiver.symbols_since_match = receiver.symbols_since_match.wrapping_add(1);
    let incoming: u32 = if bit { 1 } else { 0 };
    receiver.word = ((receiver.word >> 1) | (incoming << 22)) & WORD_MASK;
    if decode_word(syndrome, receive_code, receiver.word) {
        if receiver.match_count != 0 && receiver.symbols_since_match == SYMBOL_COUNT {
            if receiver.match_count < 2 {
                receiver.match_count = receiver.match_count + 1;
            }
        } else {
            receiver.match_count = 1;
        }
        receiver.symbols_since_match = 0;
        if receiver.match_count >= 2 {
            receiver.qualified = true;
            receiver.hold = SYMBOL_COUNT;
        }
        return;
    }
    if receiver.qualified {
        receiver.hold = receiver.hold.wrapping_sub(1);
        if receiver.hold == 0 {
            receiver.qualified = false;
            receiver.match_count = 0;
        }
    }
}

/// One native frame at one hypothesis: integrate, clock, and on a symbol
/// boundary decide the bit and (outside a turn-off tail) shift it in.
pub open spec fn spec_advance_phase(
    syndrome: Seq<u32>,
    receive_code: i32,
    inverted: bool,
    r: ReceivePhase,
    centered: i32,
    tail_active: bool,
) -> ReceivePhase {
    let accumulated = r.sample_accumulator.wrapping_add(centered as i64);
    let clock = r.bit_accumulator.wrapping_add(CLOCK_INCREMENT);
    if clock < CLOCK_LIMIT {
        ReceivePhase { sample_accumulator: accumulated, bit_accumulator: clock, ..r }
    } else {
        let bit = (accumulated >= 0) != inverted;
        let boundary = ReceivePhase { sample_accumulator: 0, bit_accumulator: clock.wrapping_sub(CLOCK_LIMIT), ..r };
        if tail_active { boundary } else { spec_receive_symbol(syndrome, receive_code, boundary, bit) }
    }
}

/// Abstract value of a DCS receiver.
pub struct DcsReceiveModel {
    /// The sixteen timing hypotheses.
    pub phases: Seq<ReceivePhase>,
    /// Q15 DC estimate.
    pub dc_estimate_q15: i64,
    /// Golay correction table.
    pub syndrome: Seq<u32>,
    /// Configured code, or -1.
    pub receive_code: i32,
    /// Inverted symbol polarity.
    pub receive_inverted: bool,
    /// A supported code is configured.
    pub enabled: bool,
    /// Some hypothesis qualified at the end of the last span.
    pub valid: bool,
}

/// Callback-owned DCS receive decoder state.
pub struct ReceiveState {
    receive_phase: Vec<ReceivePhase>,
    dc_estimate_q15: i64,
    syndrome: Vec<u32>,
    receive_code: i32,
    receive_inverted: bool,
    enabled: bool,
    valid: bool,
}

impl View for ReceiveState {
    type V = DcsReceiveModel;

    closed spec fn view(&self) -> DcsReceiveModel {
        DcsReceiveModel {
            phases: self.receive_phase@,
            dc_estimate_q15: self.dc_estimate_q15,
            syndrome: self.syndrome@,
            receive_code: self.receive_code,
            receive_inverted: self.receive_inverted,
            enabled: self.enabled,
            valid: self.valid,
        }
    }
}

/// Well-formed receiver.
pub open spec fn spec_dcs_wf(m: DcsReceiveModel) -> bool {
    &&& m.phases.len() == PHASE_COUNT
    &&& m.syndrome == spec_syndrome_table()
    &&& m.syndrome.len() == SYNDROME_COUNT
    &&& -MAX_DC_ESTIMATE <= m.dc_estimate_q15 <= MAX_DC_ESTIMATE
    &&& m.receive_code == spec_configured_code(m.receive_code)
    &&& m.enabled == (m.receive_code >= 0)
}

/// The hypotheses after a reset: fresh, with clocks spread evenly over one symbol.
pub open spec fn spec_reset_phases() -> Seq<ReceivePhase> {
    Seq::new(PHASE_COUNT as nat, |p: int| spec_fresh_phase((30_000 * p) as u32))
}

/// Whether any hypothesis is qualified.
pub open spec fn spec_any_qualified(phases: Seq<ReceivePhase>) -> bool {
    exists|p: int| 0 <= p < phases.len() && (#[trigger] phases[p]).qualified
}

/// A hypothesis with its qualification cleared.
pub open spec fn spec_unqualified(r: ReceivePhase) -> ReceivePhase {
    ReceivePhase { hold: 0, symbols_since_match: 0, match_count: 0, qualified: false, ..r }
}

/// The DC estimate after tracking one sample.
pub open spec fn spec_tracked_dc(dc: i64, sample: i32) -> int {
    dc + trunc_div(sample * DC_TRACKER_SCALE - dc, DC_TRACKER_SCALE as int)
}

impl ReceiveState {
    /// An unconfigured receiver.
    pub fn new() -> (state: Self)
        ensures
            spec_dcs_wf(state@),
            state@.receive_code == -1,
            !state@.enabled,
            !state@.valid,
            state@.phases == spec_reset_phases(),
            state@.dc_estimate_q15 == 0,
    {
        let mut state = ReceiveState {
            receive_phase: Vec::new(),
            dc_estimate_q15: 0,
            syndrome: syndrome_table(),
            receive_code: -1,
            receive_inverted: false,
            enabled: false,
            valid: false,
        };
        state.reset_phase_bank();
        state
    }

    /// Replace the configured code and clear all runtime qualification.
    pub fn configure(&mut self, code: i32, inverted: u32)
        requires
            spec_dcs_wf(old(self)@),
        ensures
            spec_dcs_wf(final(self)@),
            final(self)@.receive_code == spec_configured_code(code),
            final(self)@.receive_inverted == (inverted != 0),
            final(self)@.enabled == (spec_configured_code(code) >= 0),
            final(self)@.phases == spec_reset_phases(),
            final(self)@.dc_estimate_q15 == 0,
            !final(self)@.valid,
    {
        self.receive_code = configured_code(code);
        self.receive_inverted = inverted != 0;
        self.enabled = self.receive_code >= 0;
        self.reset_phase_bank();
    }

    /// Return whether a configured code is currently qualified.
    pub fn valid(&self) -> (valid: bool)
        ensures
            valid == self@.valid,
    {
        self.valid
    }

    /// Return whether decoding is configured for a supported code.
    pub fn enabled(&self) -> (enabled: bool)
        ensures
            enabled == self@.enabled,
    {
        self.enabled
    }

    /// Return the configured code, or -1.
    pub fn receive_code(&self) -> (code: i32)
        ensures
            code == self@.receive_code,
    {
        self.receive_code
    }

    /// Return a copy of one timing hypothesis.
    pub fn phase(&self, index: usize) -> (phase: ReceivePhase)
        requires
            spec_dcs_wf(self@),
            index < PHASE_COUNT,
        ensures
            phase == self@.phases[index as int],
    {
        self.receive_phase[index]
    }

    /// Return the Q15 DC estimate.
    pub fn dc_estimate_q15(&self) -> (estimate: i64)
        ensures
            estimate == self@.dc_estimate_q15,
    {
        self.dc_estimate_q15
    }

    /// Restart every hypothesis and the DC tracker.
    fn reset_phase_bank(&mut self)
        requires
            old(self)@.syndrome == spec_syndrome_table(),
            old(self)@.syndrome.len() == SYNDROME_COUNT,
            old(self)@.receive_code == spec_configured_code(old(self)@.receive_code),
            old(self)@.enabled == (old(self)@.receive_code >= 0),
        ensures
            spec_dcs_wf(final(self)@),
            final(self)@ == (DcsReceiveModel {
                phases: spec_reset_phases(),
                dc_estimate_q15: 0,
                valid: false,
                ..old(self)@
            }),
    {
        let mut phases: Vec<ReceivePhase> = Vec::new();
        let mut phase: u32 = 0;
        while phase < PHASE_COUNT as u32
            invariant
                phase <= PHASE_COUNT,
                phases.len() == phase,
                forall|p: int| 0 <= p < phase ==> phases@[p] == spec_fresh_phase((30_000 * p) as u32),
            decreases PHASE_COUNT - phase,
        {
            assert((480_000 * (phase as int)) / 16 == 30_000 * (phase as int)) by (nonlinear_arith)
                requires phase < 16;
            let clock: u32 = ((CLOCK_LIMIT as u64 * phase as u64) / PHASE_COUNT as u64) as u32;
            phases.push(ReceivePhase {
                word: 0,
                bit_accumulator: clock,
                hold: 0,
                symbols_since_match: 0,
                match_count: 0,
                qualified: false,
                sample_accumulator: 0,
            });
            phase = phase + 1;
        }
        assert(phases@ =~= spec_reset_phases());
        self.receive_phase = phases;
        self.dc_estimate_q15 = 0;
        self.valid = false;
    }

    /// Track the DC level of one native code and return the centered sample.
    pub fn remove_dc(&mut self, sample: i32) -> (centered: i32)
        requires
            spec_dcs_wf(old(self)@),
            -MAX_SAMPLE_MAGNITUDE <= sample <= MAX_SAMPLE_MAGNITUDE,
        ensures
            spec_dcs_wf(final(self)@),
            final(self)@ == (DcsReceiveModel { dc_estimate_q15: final(self)@.dc_estimate_q15, ..old(self)@ }),
            final(self)@.dc_estimate_q15 == spec_tracked_dc(old(self)@.dc_estimate_q15, sample),
            centered == sample - trunc_div(final(self)@.dc_estimate_q15 as int, DC_TRACKER_SCALE as int),
    {
        let target: i64 = sample as i64 * DC_TRACKER_SCALE;
        let difference: i64 = target - self.dc_estimate_q15;
        let step: i64 = difference / DC_TRACKER_SCALE;
        assert(difference >= 0 ==> 0 <= step <= difference);
        assert(difference < 0 ==> difference <= step <= 0);
        self.dc_estimate_q15 = self.dc_estimate_q15 + step;
        let level: i64 = self.dc_estimate_q15 / DC_TRACKER_SCALE;
        sample - level as i32
    }

    /// Clear qualification in every hypothesis, as a starting turn-off tail does.
    pub fn clear_qualification(&mut self)
        requires
            spec_dcs_wf(old(self)@),
        ensures
            spec_dcs_wf(final(self)@),
            final(self)@ == (DcsReceiveModel {
                phases: old(self)@.phases.map_values(|r: ReceivePhase| spec_unqualified(r)),
                valid: false,
                ..old(self)@
            }),
    {
        let ghost start = self.receive_phase@;
        let ghost before = self@;
        let mut index: usize = 0;
        while index < PHASE_COUNT
            invariant
                self.dc_estimate_q15 == before.dc_estimate_q15,
                self.syndrome@ == before.syndrome,
                self.receive_code == before.receive_code,
                self.receive_inverted == before.receive_inverted,
                self.enabled == before.enabled,
                self.valid == before.valid,
                index <= PHASE_COUNT,
                self.receive_phase.len() == PHASE_COUNT,
                start.len() == PHASE_COUNT,
                forall|p: int| 0 <= p < index ==> #[trigger] self.receive_phase@[p] == spec_unqualified(start[p]),
                forall|p: int| index <= p < PHASE_COUNT ==> #[trigger] self.receive_phase@[p] == start[p],
            decreases PHASE_COUNT - index,
        {
            let mut receiver = self.receive_phase[index];
            receiver.hold = 0;
            receiver.symbols_since_match = 0;
            receiver.match_count = 0;
            receiver.qualified = false;
            self.receive_phase.set(index, receiver);
            index = index + 1;
        }
        assert(self.receive_phase@ =~= start.map_values(|r: ReceivePhase| spec_unqualified(r)));
        self.valid = false;
    }

    /// Advance every hypothesis by one native frame of centered signal.
    pub fn advance_phases(&mut self, centered: i32, tail_active: bool)
        requires
            spec_dcs_wf(old(self)@),
        ensures
            spec_dcs_wf(final(self)@),
            final(self)@ == (DcsReceiveModel {
                phases: old(self)@.phases.map_values(|r: ReceivePhase| spec_advance_phase(
                    old(self)@.syndrome,
                    old(self)@.receive_code,
                    old(self)@.receive_inverted,
                    r,
                    centered,
                    tail_active,
                )),
                ..old(self)@
            }),
    {
        let ghost start = self.receive_phase@;
        let ghost before = self@;
        let mut index: usize = 0;
        while index < PHASE_COUNT
            invariant
                self.dc_estimate_q15 == before.dc_estimate_q15,
                self.syndrome@ == before.syndrome,
                self.receive_code == before.receive_code,
                self.receive_inverted == before.receive_inverted,
                self.enabled == before.enabled,
                self.valid == before.valid,
                index <= PHASE_COUNT,
                self.receive_phase.len() == PHASE_COUNT,
                start.len() == PHASE_COUNT,
                self.syndrome.len() == SYNDROME_COUNT,
                forall|p: int| 0 <= p < index ==> #[trigger] self.receive_phase@[p] == spec_advance_phase(
                    self.syndrome@,
                    self.receive_code,
                    self.receive_inverted,
                    start[p],
                    centered,
                    tail_active,
                ),
                forall|p: int| index <= p < PHASE_COUNT ==> #[trigger] self.receive_phase@[p] == start[p],
            decreases PHASE_COUNT - index,
        {
            let mut receiver = self.receive_phase[index];
            receiver.sample_accumulator = receiver.sample_accumulator.wrapping_add(centered as i64);
            receiver.bit_accumulator = receiver.bit_accumulator.wrapping_add(CLOCK_INCREMENT);
            if receiver.bit_accumulator >= CLOCK_LIMIT {
                receiver.bit_accumulator = receiver.bit_accumulator.wrapping_sub(CLOCK_LIMIT);
                let mut bit = receiver.sample_accumulator >= 0;
                if self.receive_inverted {
                    bit = !bit;
                }
                receiver.sample_accumulator = 0;
                if !tail_active {
                    process_received_symbol(&self.syndrome, self.receive_code, &mut receiver, bit);
                }
            }
            self.receive_phase.set(index, receiver);
            index = index + 1;
        }
        assert(self.receive_phase@ =~= start.map_values(|r: ReceivePhase| spec_advance_phase(
            self.syndrome@,
            self.receive_code,
            self.receive_inverted,
            r,
            centered,
            tail_active,
        )));
    }

    /// Publish validity at the end of a span: some hypothesis is qualified.
    pub fn finish_span(&mut self) -> (valid: bool)
        requires
            spec_dcs_wf(old(self)@),
        ensures
            spec_dcs_wf(final(self)@),
            final(self)@ == (DcsReceiveModel { valid, ..old(self)@ }),
            valid == spec_any_qualified(old(self)@.phases),
    {
        let mut index: usize = 0;
        let mut any = false;
        while index < PHASE_COUNT
            invariant
                index <= PHASE_COUNT,
                self.receive_phase.len() == PHASE_COUNT,
                any == exists|p: int| 0 <= p < index && (#[trigger] self.receive_phase@[p]).qualified,
            decreases PHASE_COUNT - index,
        {
            if self.receive_phase[index].qualified {
                any = true;
            }
            index = index + 1;
        }
        self.valid = any;
        any
    }
}

/// A word register after one more symbol arrives: the register shifts
/// toward bit 0 and the symbol enters at bit 22.
pub open spec fn spec_shift_in(word: u32, bit: bool) -> u32 {
    ((word >> 1u32) | ((if bit { 1u32 } else { 0u32 }) << 22u32)) & WORD_MASK
}

/// The transmitter's data bit for its current symbol, before polarity.
pub open spec fn spec_data_bit(tx: TransmitState) -> bool {
    (spec_wire_word(tx.code) >> tx.phase) & 1 != 0
}

/// Polarity round trip of one symbol: when a hypothesis closes a symbol
/// whose integrated level has the sign of the level a transmitter sent
/// (non-negative for a high level, negative for a low one), and the
/// receiver is configured with the transmitter's polarity, the receiver
/// shifts in the transmitter's data bit, whatever that polarity is.
pub proof fn lemma_symbol_round_trip(
    syndrome: Seq<u32>,
    receive_code: i32,
    tx: TransmitState,
    r: ReceivePhase,
    centered: i32,
)
    requires
        r.bit_accumulator < CLOCK_LIMIT,
        r.bit_accumulator + CLOCK_INCREMENT >= CLOCK_LIMIT,
        spec_level(tx) ==> r.sample_accumulator.wrapping_add(centered as i64) >= 0,
        !spec_level(tx) ==> r.sample_accumulator.wrapping_add(centered as i64) < 0,
    ensures
        spec_advance_phase(syndrome, receive_code, tx.inverted, r, centered, false).word
            == spec_shift_in(r.word, spec_data_bit(tx)),
        spec_advance_phase(syndrome, receive_code, tx.inverted, r, centered, false).sample_accumulator == 0,
{
}

/// Qualification: a hypothesis whose previous matching word ended one word
/// ago qualifies, with a full word of hold, as soon as the register after the
/// next symbol decodes as the configured code again.
pub proof fn lemma_second_word_qualifies(syndrome: Seq<u32>, receive_code: i32, r: ReceivePhase, bit: bool)
    requires
        r.match_count != 0,
        r.symbols_since_match + 1 == SYMBOL_COUNT,
        spec_decode_word(syndrome, receive_code, spec_shift_in(r.word, bit)),
    ensures
        spec_receive_symbol(syndrome, receive_code, r, bit).word == spec_shift_in(r.word, bit),
        spec_receive_symbol(syndrome, receive_code, r, bit).qualified,
        spec_receive_symbol(syndrome, receive_code, r, bit).hold == SYMBOL_COUNT,
        spec_receive_symbol(syndrome, receive_code, r, bit).match_count >= 2,
        spec_receive_symbol(syndrome, receive_code, r, bit).symbols_since_match == 0,
{
}

/// The register after the data bits of symbols `0..n` of a code's wire
/// word arrive in order.
pub open spec fn spec_receive_bits(word: u32, wire: u32, n: nat) -> u32
    decreases n,
{
    if n == 0 {
        word
    } else {
        spec_shift_in(spec_receive_bits(word, wire, (n - 1) as nat), (wire >> ((n - 1) as u32)) & 1 != 0)
    }
}

/// Bits of the register after `n` symbols: the old register's bits moved
/// down by `n`, and the first `n` symbols at the top.
proof fn lemma_receive_bits_shape(word: u32, wire: u32, n: u32)
    requires
        n <= 23,
        word <= WORD_MASK,
    ensures
        spec_receive_bits(word, wire, n as nat) == ((word >> n) | ((wire & (((1u32 << n) - 1) as u32)) << ((23 - n) as u32)))
            & WORD_MASK,
    decreases n,
{
    if n == 0 {
        assert(((word >> 0u32) | ((wire & (((1u32 << 0u32) - 1) as u32)) << 23u32)) & 0x7f_ffff == word)
            by (bit_vector)
            requires word <= 0x7f_ffff;
    } else {
        let m = (n - 1) as u32;
        lemma_receive_bits_shape(word, wire, m);
        assert(((((word >> m) | ((wire & (((1u32 << m) - 1) as u32)) << ((23 - m) as u32))) & 0x7f_ffff) >> 1u32
            | ((if (wire >> m) & 1 != 0 { 1u32 } else { 0u32 }) << 22u32)) & 0x7f_ffff
            == ((word >> n) | ((wire & (((1u32 << n) - 1) as u32)) << ((23 - n) as u32))) & 0x7f_ffff)
            by (bit_vector)
            requires m < 23, n == m + 1, word <= 0x7f_ffff;
    }
}

/// Word round trip: whatever a hypothesis held before, once it has received
/// the data bits of a whole transmitted word in order it holds exactly that
/// word, and the word decodes as the transmitter's code.
pub proof fn lemma_word_round_trip(word: u32, code: i32)
    requires
        word <= WORD_MASK,
        spec_code_supported(code),
    ensures
        spec_receive_bits(word, spec_wire_word(code), SYMBOL_COUNT as nat) == spec_wire_word(code),
        spec_decode_word(spec_syndrome_table(), code, spec_receive_bits(word, spec_wire_word(code), SYMBOL_COUNT as nat)),
{
    let wire = spec_wire_word(code);
    lemma_receive_bits_shape(word, wire, 23);
    lemma_wire_word_fits(code);
    assert(((word >> 23u32) | ((wire & (((1u32 << 23u32) - 1) as u32)) << 0u32)) & 0x7f_ffff == wire) by (bit_vector)
        requires word <= 0x7f_ffff, wire <= 0x7f_ffff;
    lemma_syndrome_zero_entry();
    lemma_clean_word_decodes(spec_syndrome_table(), code);
}

/// A wire word fits the 23 transmitted bits.
proof fn lemma_wire_word_fits(code: i32)
    ensures
        spec_wire_word(code) <= WORD_MASK,
{
    let data = crate::dcs_code::spec_data_bits(code);
    let parity = crate::dcs_code::spec_encode_steps(data, 12);
    assert(data | ((parity & 0x0ffe) << 11u32) <= 0x7f_ffff) by (bit_vector)
        requires data == ((code as u32) & 0x01ff) | 0x0800;
}

} // verus!
