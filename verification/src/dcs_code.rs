//! DCS code words: the 23-bit Golay word sent least-significant bit first,
//! the receive-side syndrome, and the error-correcting decode.

use vstd::prelude::*;

verus! {

/// Mask of the 23 transmitted bits.
pub const WORD_MASK: u32 = 0x7f_ffff;
/// Receive-side Golay generator (bit-reversed wire form).
pub const GENERATOR: u32 = 0x0c75;
/// Transmit-side Golay generator.
pub const WIRE_GENERATOR: u32 = 0x08ea;
/// Number of entries of the syndrome table.
pub const SYNDROME_COUNT: usize = 2_048;

/// Return whether a numeric code fits the three-octal-digit field.
pub open spec fn spec_code_supported(code: i32) -> bool {
    0 <= code <= 0o777
}

/// Return whether a numeric code fits the three-octal-digit field.
pub fn code_supported(code: i32) -> (supported: bool)
    ensures
        supported == spec_code_supported(code),
{
    0 <= code && code <= 0o777
}

/// Keep a supported code; map any other value to -1.
pub open spec fn spec_configured_code(code: i32) -> i32 {
    if spec_code_supported(code) { code } else { -1i32 }
}

/// Preserve the configuration outcome for a possibly invalid code.
pub fn configured_code(code: i32) -> (configured: i32)
    ensures
        configured == spec_configured_code(code),
{
    if code_supported(code) { code } else { -1 }
}

/// One long-division step at bit `bit`: cancel that bit with the shifted generator.
pub open spec fn spec_division_step(word: u32, bit: u32) -> u32 {
    if word & (1u32 << bit) != 0 { word ^ (GENERATOR << ((bit - 11) as u32)) } else { word }
}

/// Long division of `word` by the generator over bits `bit` down to 11.
pub open spec fn spec_divide_from(word: u32, bit: int) -> u32
    decreases bit,
{
    if bit < 11 || bit > 22 {
        word
    } else {
        spec_divide_from(spec_division_step(word, bit as u32), bit - 1)
    }
}

/// The 11-bit syndrome: the remainder of `word` modulo the generator.
pub open spec fn spec_remainder(word: u32) -> u32 {
    spec_divide_from(word, 22) & 0x07ff
}

/// Compute the 11-bit syndrome of a received word.
pub fn remainder(word: u32) -> (syndrome: u32)
    ensures
        syndrome == spec_remainder(word),
        syndrome < SYNDROME_COUNT,
{
    let mut word = word;
    let ghost start_word = word;
    let mut bit: u32 = 22;
    while bit >= 11
        invariant
            10 <= bit <= 22,
            spec_divide_from(word, bit as int) == spec_divide_from(start_word, 22),
        decreases bit,
    {
        if word & (1u32 << bit) != 0 {
            word = word ^ (GENERATOR << (bit - 11));
        }
        bit = bit - 1;
    }
    let syndrome = word & 0x07ff;
    assert(word & 0x07ff < 2048) by (bit_vector);
    syndrome
}

/// One encoder step: shift the remainder and reduce by the wire generator.
pub open spec fn spec_encode_step(remainder: u32) -> u32 {
    let shifted = remainder << 1u32;
    if shifted & 0x1000 != 0 { shifted ^ WIRE_GENERATOR } else { shifted }
}

/// Encoder remainder after `steps` steps from `start`.
pub open spec fn spec_encode_steps(start: u32, steps: nat) -> u32
    decreases steps,
{
    if steps == 0 { start } else { spec_encode_step(spec_encode_steps(start, (steps - 1) as nat)) }
}

/// The 12 data bits of a code: the 9-bit code and the fixed `100` marker.
pub open spec fn spec_data_bits(code: i32) -> u32 {
    ((code as u32) & 0x01ff) | 0x0800
}

/// The 23-bit DCS word of a code, least-significant bit first on the wire.
pub open spec fn spec_wire_word(code: i32) -> u32 {
    let data = spec_data_bits(code);
    data | ((spec_encode_steps(data, 12) & 0x0ffe) << 11u32)
}

/// Encode one DCS word in least-significant-bit-first wire layout.
pub fn wire_word(code: i32) -> (word: u32)
    ensures
        word == spec_wire_word(code),
{
    let data: u32 = (code as u32 & 0x01ff) | 0x0800;
    let mut remainder: u32 = data;
    let mut step: u32 = 0;
    while step < 12
        invariant
            step <= 12,
            remainder == spec_encode_steps(data, step as nat),
        decreases 12 - step,
    {
        let shifted: u32 = remainder << 1;
        remainder = if shifted & 0x1000 != 0 { shifted ^ WIRE_GENERATOR } else { shifted };
        step = step + 1;
    }
    data | ((remainder & 0x0ffe) << 11)
}

/// The corrected data bits of a received word under a syndrome table.
pub open spec fn spec_corrected_data(syndrome: Seq<u32>, received: u32) -> u32 {
    (received ^ syndrome[spec_remainder(received) as int]) & 0x0fff
}

/// Whether a received word decodes to `receive_code` under a syndrome table.
pub open spec fn spec_decode_word(syndrome: Seq<u32>, receive_code: i32, received: u32) -> bool {
    let data = spec_corrected_data(syndrome, received);
    data & 0x0e00 == 0x0800 && (data & 0x01ff) as i32 == receive_code
}

/// Correct a received word with the syndrome table and compare its code.
pub fn decode_word(syndrome: &Vec<u32>, receive_code: i32, received: u32) -> (matched: bool)
    requires
        syndrome.len() == SYNDROME_COUNT,
    ensures
        matched == spec_decode_word(syndrome@, receive_code, received),
{
    let error = syndrome[remainder(received) as usize];
    let data = (received ^ error) & 0x0fff;
    data & 0x0e00 == 0x0800 && (data & 0x01ff) as i32 == receive_code
}

/// Every supported code's wire word is a code word: its syndrome is zero and
/// its data bits carry the code behind the fixed marker.
pub proof fn lemma_wire_word_is_codeword(code: i32)
    requires
        spec_code_supported(code),
    ensures
        spec_remainder(spec_wire_word(code)) == 0,
        spec_wire_word(code) & 0x0fff == spec_data_bits(code),
        spec_data_bits(code) & 0x0e00 == 0x0800,
        (spec_data_bits(code) & 0x01ff) as i32 == code,
{
    let c = code as u32;
    assert(c < 512);
    reveal_with_fuel(spec_encode_steps, 13);
    reveal_with_fuel(spec_divide_from, 13);
    let r0 = (c & 0x01ff) | 0x0800;
    assert(spec_data_bits(code) == r0);
    let r1 = spec_encode_step(r0);
    let r2 = spec_encode_step(r1);
    let r3 = spec_encode_step(r2);
    let r4 = spec_encode_step(r3);
    let r5 = spec_encode_step(r4);
    let r6 = spec_encode_step(r5);
    let r7 = spec_encode_step(r6);
    let r8 = spec_encode_step(r7);
    let r9 = spec_encode_step(r8);
    let r10 = spec_encode_step(r9);
    let r11 = spec_encode_step(r10);
    let r12 = spec_encode_step(r11);
    let w = r0 | ((r12 & 0x0ffe) << 11u32);
    assert(spec_wire_word(code) == w);
    let s22 = spec_division_step(w, 22);
    let s21 = spec_division_step(s22, 21);
    let s20 = spec_division_step(s21, 20);
    let s19 = spec_division_step(s20, 19);
    let s18 = spec_division_step(s19, 18);
    let s17 = spec_division_step(s18, 17);
    let s16 = spec_division_step(s17, 16);
    let s15 = spec_division_step(s16, 15);
    let s14 = spec_division_step(s15, 14);
    let s13 = spec_division_step(s14, 13);
    let s12 = spec_division_step(s13, 12);
    let s11 = spec_division_step(s12, 11);
    assert(spec_remainder(w) == s11 & 0x07ff);
    assert(s11 & 0x07ff == 0) by (bit_vector)
        requires
            c < 512,
            r0 == (c & 0x01ff) | 0x0800,
            r1 == spec_encode_step(r0),
            r2 == spec_encode_step(r1),
            r3 == spec_encode_step(r2),
            r4 == spec_encode_step(r3),
            r5 == spec_encode_step(r4),
            r6 == spec_encode_step(r5),
            r7 == spec_encode_step(r6),
            r8 == spec_encode_step(r7),
            r9 == spec_encode_step(r8),
            r10 == spec_encode_step(r9),
            r11 == spec_encode_step(r10),
            r12 == spec_encode_step(r11),
            w == r0 | ((r12 & 0x0ffe) << 11u32),
            s22 == spec_division_step(w, 22),
            s21 == spec_division_step(s22, 21),
            s20 == spec_division_step(s21, 20),
            s19 == spec_division_step(s20, 19),
            s18 == spec_division_step(s19, 18),
            s17 == spec_division_step(s18, 17),
            s16 == spec_division_step(s17, 16),
            s15 == spec_division_step(s16, 15),
            s14 == spec_division_step(s15, 14),
            s13 == spec_division_step(s14, 13),
            s12 == spec_division_step(s13, 12),
            s11 == spec_division_step(s12, 11);
    assert(w & 0x0fff == r0) by (bit_vector)
        requires
            r0 == (c & 0x01ff) | 0x0800,
            w == r0 | ((r12 & 0x0ffe) << 11u32);
    assert(r0 & 0x0e00 == 0x0800) by (bit_vector)
        requires r0 == (c & 0x01ff) | 0x0800;
    assert(r0 & 0x01ff == c) by (bit_vector)
        requires c < 512, r0 == (c & 0x01ff) | 0x0800;
}

/// A syndrome table decodes every supported code's clean wire word as that
/// code, provided its zero-syndrome entry is zero.
pub proof fn lemma_clean_word_decodes(syndrome: Seq<u32>, code: i32)
    requires
        spec_code_supported(code),
        syndrome.len() == SYNDROME_COUNT,
        syndrome[0] == 0,
    ensures
        spec_decode_word(syndrome, code, spec_wire_word(code)),
{
    lemma_wire_word_is_codeword(code);
    let w = spec_wire_word(code);
    assert((w ^ 0u32) & 0x0fff == w & 0x0fff) by (bit_vector);
}

/// Single-bit pattern at position `index`.
pub open spec fn spec_bit(index: int) -> u32 {
    1u32 << (index as u32)
}

/// Record `error` as the correction for its own syndrome.
pub open spec fn spec_install(table: Seq<u32>, error: u32) -> Seq<u32> {
    table.update(spec_remainder(error) as int, error)
}

/// Install every three-bit error with the given first two bits, third bit from `third` up.
pub open spec fn spec_install_thirds(table: Seq<u32>, first: int, second: int, third: int) -> Seq<u32>
    decreases 23 - third,
{
    if third >= 23 {
        table
    } else {
        spec_install_thirds(
            spec_install(table, spec_bit(first) | spec_bit(second) | spec_bit(third)),
            first,
            second,
            third + 1,
        )
    }
}

/// Install the two- and three-bit errors with the given first bit, second bit from `second` up.
pub open spec fn spec_install_seconds(table: Seq<u32>, first: int, second: int) -> Seq<u32>
    decreases 23 - second,
{
    if second >= 23 {
        table
    } else {
        spec_install_seconds(
            spec_install_thirds(spec_install(table, spec_bit(first) | spec_bit(second)), first, second, second + 1),
            first,
            second + 1,
        )
    }
}

/// Install all one-, two-, and three-bit errors whose lowest bit is `first` or above.
pub open spec fn spec_install_firsts(table: Seq<u32>, first: int) -> Seq<u32>
    decreases 23 - first,
{
    if first >= 23 {
        table
    } else {
        spec_install_firsts(spec_install_seconds(spec_install(table, spec_bit(first)), first, first + 1), first + 1)
    }
}

/// The correction table: every error of up to three bits installed in
/// ascending order of its bits, then the zero error.
pub open spec fn spec_syndrome_table() -> Seq<u32> {
    spec_install(spec_install_firsts(Seq::new(SYNDROME_COUNT as nat, |i: int| 0u32), 0), 0)
}

/// The zero word has the zero syndrome.
pub proof fn lemma_remainder_zero()
    ensures
        spec_remainder(0) == 0,
{
    reveal_with_fuel(spec_divide_from, 13);
    assert forall|b: u32| b < 32 implies #[trigger] spec_division_step(0, b) == 0 by {
        assert(0u32 & (1u32 << b) == 0) by (bit_vector);
    }
    assert(0u32 & 0x07ff == 0) by (bit_vector);
}

/// Syndromes index the table.
pub proof fn lemma_remainder_bound(word: u32)
    ensures
        spec_remainder(word) < SYNDROME_COUNT,
{
    let x = spec_divide_from(word, 22);
    assert(x & 0x07ff < 2048) by (bit_vector);
}

/// Installing an error keeps the table's length.
proof fn lemma_install_len(table: Seq<u32>, error: u32)
    requires
        table.len() == SYNDROME_COUNT,
    ensures
        spec_install(table, error).len() == SYNDROME_COUNT,
{
    lemma_remainder_bound(error);
}

proof fn lemma_install_thirds_len(table: Seq<u32>, first: int, second: int, third: int)
    requires
        table.len() == SYNDROME_COUNT,
    ensures
        spec_install_thirds(table, first, second, third).len() == SYNDROME_COUNT,
    decreases 23 - third,
{
    if third < 23 {
        lemma_install_len(table, spec_bit(first) | spec_bit(second) | spec_bit(third));
        lemma_install_thirds_len(
            spec_install(table, spec_bit(first) | spec_bit(second) | spec_bit(third)), first, second, third + 1);
    }
}

proof fn lemma_install_seconds_len(table: Seq<u32>, first: int, second: int)
    requires
        table.len() == SYNDROME_COUNT,
    ensures
        spec_install_seconds(table, first, second).len() == SYNDROME_COUNT,
    decreases 23 - second,
{
    if second < 23 {
        let t = spec_install(table, spec_bit(first) | spec_bit(second));
        lemma_install_len(table, spec_bit(first) | spec_bit(second));
        lemma_install_thirds_len(t, first, second, second + 1);
        lemma_install_seconds_len(spec_install_thirds(t, first, second, second + 1), first, second + 1);
    }
}

proof fn lemma_install_firsts_len(table: Seq<u32>, first: int)
    requires
        table.len() == SYNDROME_COUNT,
    ensures
        spec_install_firsts(table, first).len() == SYNDROME_COUNT,
    decreases 23 - first,
{
    if first < 23 {
        let t = spec_install(table, spec_bit(first));
        lemma_install_len(table, spec_bit(first));
        lemma_install_seconds_len(t, first, first + 1);
        lemma_install_firsts_len(spec_install_seconds(t, first, first + 1), first + 1);
    }
}

/// The correction table has one entry per syndrome, and a clean word (zero
/// syndrome) is left uncorrected.
pub proof fn lemma_syndrome_zero_entry()
    ensures
        spec_syndrome_table().len() == SYNDROME_COUNT,
        spec_syndrome_table()[0] == 0,
{
    let zeros = Seq::new(SYNDROME_COUNT as nat, |i: int| 0u32);
    lemma_install_firsts_len(zeros, 0);
    lemma_remainder_zero();
}

/// Record one error pattern in the correction table.
fn install_error(table: &mut Vec<u32>, error: u32)
    requires
        old(table).len() == SYNDROME_COUNT,
    ensures
        final(table)@ == spec_install(old(table)@, error),
        final(table).len() == SYNDROME_COUNT,
{
    let index = remainder(error) as usize;
    table.set(index, error);
}

/// Build the Golay correction table for every error of up to three bits.
pub fn syndrome_table() -> (table: Vec<u32>)
    ensures
        table@ == spec_syndrome_table(),
        table.len() == SYNDROME_COUNT,
        table@[0] == 0,
{
    let mut table: Vec<u32> = Vec::new();
    let mut index: usize = 0;
    while index < SYNDROME_COUNT
        invariant
            index <= SYNDROME_COUNT,
            table.len() == index,
            forall|i: int| 0 <= i < index ==> table@[i] == 0u32,
        decreases SYNDROME_COUNT - index,
    {
        table.push(0);
        index = index + 1;
    }
    let ghost zeros = table@;
    assert(zeros =~= Seq::new(SYNDROME_COUNT as nat, |i: int| 0u32));
    let ghost target = spec_install_firsts(zeros, 0);

    let mut first: u32 = 0;
    while first < 23
        invariant
            first <= 23,
            table.len() == SYNDROME_COUNT,
            spec_install_firsts(table@, first as int) == target,
        decreases 23 - first,
    {
        install_error(&mut table, 1u32 << first);
        let ghost middle_start = table@;
        let mut second: u32 = first + 1;
        while second < 23
            invariant
                first < 23,
                first + 1 <= second <= 23,
                table.len() == SYNDROME_COUNT,
                spec_install_seconds(table@, first as int, second as int)
                    == spec_install_seconds(middle_start, first as int, first + 1),
            decreases 23 - second,
        {
            install_error(&mut table, (1u32 << first) | (1u32 << second));
            let ghost inner_start = table@;
            let mut third: u32 = second + 1;
            while third < 23
                invariant
                    first < 23,
                    second < 23,
                    second + 1 <= third <= 23,
                    table.len() == SYNDROME_COUNT,
                    spec_install_thirds(table@, first as int, second as int, third as int)
                        == spec_install_thirds(inner_start, first as int, second as int, second + 1),
                decreases 23 - third,
            {
                install_error(&mut table, (1u32 << first) | (1u32 << second) | (1u32 << third));
                third = third + 1;
            }
            second = second + 1;
        }
        first = first + 1;
    }
    install_error(&mut table, 0);
    proof {
        lemma_remainder_zero();
    }
    table
}

} // verus!
