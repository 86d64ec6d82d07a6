//! Compatibility parsers for radio-signaling assignments.
//!
//! Only the historical ASCII tokens are accepted, compared exactly except for
//! ASCII case (the behaviour of `strcasecmp` on ASCII text).  A token is the
//! configuration value's bytes without its terminating NUL; a missing value
//! is `None`.  A failed parse leaves the caller's output unchanged.

use vstd::prelude::*;
use crate::{RADIO_INVALID_ARGUMENT, RADIO_OK};

verus! {

/// No receive audio.
pub const RX_AUDIO_DISABLED: u32 = 0;
/// Speaker audio with radio-provided deemphasis.
pub const RX_AUDIO_SPEAKER: u32 = 1;
/// Flat discriminator audio requiring deemphasis.
pub const RX_AUDIO_FLAT: u32 = 2;

/// No carrier indication.
pub const CARRIER_DISABLED: u32 = 0;
/// Native discriminator-noise squelch.
pub const CARRIER_DSP: u32 = 1;
/// Audio-level carrier detection.
pub const CARRIER_VOX: u32 = 2;
/// USB GPIO carrier indication.
pub const CARRIER_USB: u32 = 3;
/// Inverted USB GPIO carrier indication.
pub const CARRIER_USB_INVERTED: u32 = 4;
/// Parallel-port carrier indication.
pub const CARRIER_PARALLEL: u32 = 5;
/// Inverted parallel-port carrier indication.
pub const CARRIER_PARALLEL_INVERTED: u32 = 6;

/// Do not require a CTCSS indication.
pub const CTCSS_DISABLED: u32 = 0;
/// USB GPIO CTCSS indication.
pub const CTCSS_USB: u32 = 1;
/// Inverted USB GPIO CTCSS indication.
pub const CTCSS_USB_INVERTED: u32 = 2;
/// Native CTCSS decoder indication.
pub const CTCSS_DSP: u32 = 3;
/// Parallel-port CTCSS indication.
pub const CTCSS_PARALLEL: u32 = 4;
/// Inverted parallel-port CTCSS indication.
pub const CTCSS_PARALLEL_INVERTED: u32 = 5;

/// End signaling with PTT release.
pub const TONE_OFF_NONE: u32 = 0;
/// Shift CTCSS phase before PTT release.
pub const TONE_OFF_PHASE_SHIFT: u32 = 1;
/// Remove CTCSS before PTT release.
pub const TONE_OFF_TONE_REMOVE: u32 = 2;
/// Substitute a low-frequency tail tone before PTT release.
pub const TONE_OFF_TAIL_TONE: u32 = 3;

/// ASCII lower-casing of one byte; other bytes are unchanged.
pub open spec fn ascii_lower(b: u8) -> u8 {
    if 65 <= b <= 90 { (b + 32) as u8 } else { b }
}

/// Two byte strings are equal once ASCII letters are lower-cased.
pub open spec fn spec_eq_ignore_ascii_case(a: Seq<u8>, b: Seq<u8>) -> bool {
    &&& a.len() == b.len()
    &&& forall|i: int| 0 <= i < a.len() ==> #[trigger] ascii_lower(a[i]) == ascii_lower(b[i])
}

/// The value of the first table entry whose name matches `text`.
pub open spec fn spec_lookup(text: Seq<u8>, table: Seq<(Seq<u8>, u32)>) -> Option<u32>
    decreases table.len(),
{
    if table.len() == 0 {
        None
    } else if spec_eq_ignore_ascii_case(text, table[0].0) {
        Some(table[0].1)
    } else {
        spec_lookup(text, table.drop_first())
    }
}

/// The abstract contents of an executable token table.
pub open spec fn table_view(table: Seq<(Vec<u8>, u32)>) -> Seq<(Seq<u8>, u32)> {
    table.map_values(|entry: (Vec<u8>, u32)| (entry.0@, entry.1))
}

/// Tokens of the `rxdemod` assignment.
pub open spec fn rx_audio_tokens() -> Seq<(Seq<u8>, u32)> {
    seq![
        (seq!['n' as u8, 'o' as u8], RX_AUDIO_DISABLED),
        (seq!['s' as u8, 'p' as u8, 'e' as u8, 'a' as u8, 'k' as u8, 'e' as u8, 'r' as u8], RX_AUDIO_SPEAKER),
        (seq!['f' as u8, 'l' as u8, 'a' as u8, 't' as u8], RX_AUDIO_FLAT),
    ]
}

/// Tokens of the `carrierfrom` assignment.
pub open spec fn carrier_tokens() -> Seq<(Seq<u8>, u32)> {
    seq![
        (seq!['n' as u8, 'o' as u8], CARRIER_DISABLED),
        (seq!['d' as u8, 's' as u8, 'p' as u8], CARRIER_DSP),
        (seq!['v' as u8, 'o' as u8, 'x' as u8], CARRIER_VOX),
        (seq!['u' as u8, 's' as u8, 'b' as u8], CARRIER_USB),
        (seq!['u' as u8, 's' as u8, 'b' as u8, 'i' as u8, 'n' as u8, 'v' as u8, 'e' as u8, 'r' as u8, 't' as u8], CARRIER_USB_INVERTED),
        (seq!['p' as u8, 'p' as u8], CARRIER_PARALLEL),
        (seq!['p' as u8, 'p' as u8, 'i' as u8, 'n' as u8, 'v' as u8, 'e' as u8, 'r' as u8, 't' as u8], CARRIER_PARALLEL_INVERTED),
    ]
}

/// Tokens of the `ctcssfrom` assignment.
pub open spec fn ctcss_tokens() -> Seq<(Seq<u8>, u32)> {
    seq![
        (seq!['n' as u8, 'o' as u8], CTCSS_DISABLED),
        (seq!['u' as u8, 's' as u8, 'b' as u8], CTCSS_USB),
        (seq!['u' as u8, 's' as u8, 'b' as u8, 'i' as u8, 'n' as u8, 'v' as u8, 'e' as u8, 'r' as u8, 't' as u8], CTCSS_USB_INVERTED),
        (seq!['d' as u8, 's' as u8, 'p' as u8], CTCSS_DSP),
        (seq!['p' as u8, 'p' as u8], CTCSS_PARALLEL),
        (seq!['p' as u8, 'p' as u8, 'i' as u8, 'n' as u8, 'v' as u8, 'e' as u8, 'r' as u8, 't' as u8], CTCSS_PARALLEL_INVERTED),
    ]
}

/// The common `ctcss_` prefix of the tone-off tokens.
pub open spec fn ctcss_prefix() -> Seq<u8> {
    seq!['c' as u8, 't' as u8, 'c' as u8, 's' as u8, 's' as u8, '_' as u8]
}

/// Tokens of the `hardware_ctcss_turnoff_mode` assignment.
pub open spec fn tone_off_tokens() -> Seq<(Seq<u8>, u32)> {
    seq![
        (seq!['n' as u8, 'o' as u8], TONE_OFF_NONE),
        (ctcss_prefix() + seq!['p' as u8, 'h' as u8, 'a' as u8, 's' as u8, 'e' as u8, '_' as u8,
            's' as u8, 'h' as u8, 'i' as u8, 'f' as u8, 't' as u8], TONE_OFF_PHASE_SHIFT),
        (ctcss_prefix() + seq!['t' as u8, 'o' as u8, 'n' as u8, 'e' as u8, '_' as u8,
            'r' as u8, 'e' as u8, 'm' as u8, 'o' as u8, 'v' as u8, 'e' as u8], TONE_OFF_TONE_REMOVE),
        (ctcss_prefix() + seq!['t' as u8, 'a' as u8, 'i' as u8, 'l' as u8, '_' as u8,
            't' as u8, 'o' as u8, 'n' as u8, 'e' as u8], TONE_OFF_TAIL_TONE),
    ]
}

/// ASCII lower-casing of one byte.
fn to_ascii_lower(b: u8) -> (r: u8)
    ensures
        r == ascii_lower(b),
{
    if 65 <= b && b <= 90 { b + 32 } else { b }
}

/// Compare two byte strings, ignoring ASCII case.
pub fn eq_ignore_ascii_case(a: &[u8], b: &[u8]) -> (equal: bool)
    ensures
        equal == spec_eq_ignore_ascii_case(a@, b@),
{
    if a.len() != b.len() {
        return false;
    }
    let mut index: usize = 0;
    while index < a.len()
        invariant
            a.len() == b.len(),
            index <= a.len(),
            forall|i: int| 0 <= i < index ==> #[trigger] ascii_lower(a@[i]) == ascii_lower(b@[i]),
        decreases a.len() - index,
    {
        if to_ascii_lower(a[index]) != to_ascii_lower(b[index]) {
            return false;
        }
        index = index + 1;
    }
    true
}

/// Find the value of the first table entry matching some bytes.
fn lookup(bytes: &[u8], values: &Vec<(Vec<u8>, u32)>) -> (value: Option<u32>)
    ensures
        value == spec_lookup(bytes@, table_view(values@)),
{
    let ghost table = table_view(values@);
    assert(table.skip(0) =~= table);
    let mut index: usize = 0;
    while index < values.len()
        invariant
            index <= values.len(),
            table == table_view(values@),
            spec_lookup(bytes@, table) == spec_lookup(bytes@, table.skip(index as int)),
        decreases values.len() - index,
    {
        proof {
            let rest = table.skip(index as int);
            assert(rest[0] == (values@[index as int].0@, values@[index as int].1));
            assert(rest.drop_first() =~= table.skip(index as int + 1));
            assert(rest.len() > 0);
        }
        let name = values[index].0.as_slice();
        if eq_ignore_ascii_case(bytes, name) {
            assert(spec_eq_ignore_ascii_case(bytes@, table.skip(index as int)[0].0));
            return Some(values[index].1);
        }
        index = index + 1;
    }
    assert(table.skip(index as int).len() == 0);
    None
}

/// Find the value of the first table entry matching one token.
pub fn parse_token(text: Option<&[u8]>, values: &Vec<(Vec<u8>, u32)>) -> (value: Option<u32>)
    ensures
        value == match text {
            Some(bytes) => spec_lookup(bytes@, table_view(values@)),
            None => None,
        },
{
    match text {
        Some(bytes) => lookup(bytes, values),
        None => None,
    }
}

/// Write a parsed value, leaving the output unchanged on failure.
pub fn parse_into(text: Option<&[u8]>, output: &mut u32, values: &Vec<(Vec<u8>, u32)>) -> (result: i32)
    ensures
        match match text {
            Some(bytes) => spec_lookup(bytes@, table_view(values@)),
            None => None,
        } {
            Some(value) => result == RADIO_OK && *final(output) == value,
            None => result == RADIO_INVALID_ARGUMENT && *final(output) == *old(output),
        },
{
    match parse_token(text, values) {
        Some(value) => {
            *output = value;
            RADIO_OK
        },
        None => RADIO_INVALID_ARGUMENT,
    }
}

fn rx_audio_table() -> (table: Vec<(Vec<u8>, u32)>)
    ensures
        table_view(table@) == rx_audio_tokens(),
{
    let table = vec![
        (vec!['n' as u8, 'o' as u8], RX_AUDIO_DISABLED),
        (vec!['s' as u8, 'p' as u8, 'e' as u8, 'a' as u8, 'k' as u8, 'e' as u8, 'r' as u8], RX_AUDIO_SPEAKER),
        (vec!['f' as u8, 'l' as u8, 'a' as u8, 't' as u8], RX_AUDIO_FLAT),
    ];
    assert(table_view(table@) =~= rx_audio_tokens());
    table
}

fn carrier_table() -> (table: Vec<(Vec<u8>, u32)>)
    ensures
        table_view(table@) == carrier_tokens(),
{
    let table = vec![
        (vec!['n' as u8, 'o' as u8], CARRIER_DISABLED),
        (vec!['d' as u8, 's' as u8, 'p' as u8], CARRIER_DSP),
        (vec!['v' as u8, 'o' as u8, 'x' as u8], CARRIER_VOX),
        (vec!['u' as u8, 's' as u8, 'b' as u8], CARRIER_USB),
        (vec!['u' as u8, 's' as u8, 'b' as u8, 'i' as u8, 'n' as u8, 'v' as u8, 'e' as u8, 'r' as u8, 't' as u8], CARRIER_USB_INVERTED),
        (vec!['p' as u8, 'p' as u8], CARRIER_PARALLEL),
        (vec!['p' as u8, 'p' as u8, 'i' as u8, 'n' as u8, 'v' as u8, 'e' as u8, 'r' as u8, 't' as u8], CARRIER_PARALLEL_INVERTED),
    ];
    assert(table_view(table@) =~= carrier_tokens());
    table
}

fn ctcss_table() -> (table: Vec<(Vec<u8>, u32)>)
    ensures
        table_view(table@) == ctcss_tokens(),
{
    let table = vec![
        (vec!['n' as u8, 'o' as u8], CTCSS_DISABLED),
        (vec!['u' as u8, 's' as u8, 'b' as u8], CTCSS_USB),
        (vec!['u' as u8, 's' as u8, 'b' as u8, 'i' as u8, 'n' as u8, 'v' as u8, 'e' as u8, 'r' as u8, 't' as u8], CTCSS_USB_INVERTED),
        (vec!['d' as u8, 's' as u8, 'p' as u8], CTCSS_DSP),
        (vec!['p' as u8, 'p' as u8], CTCSS_PARALLEL),
        (vec!['p' as u8, 'p' as u8, 'i' as u8, 'n' as u8, 'v' as u8, 'e' as u8, 'r' as u8, 't' as u8], CTCSS_PARALLEL_INVERTED),
    ];
    assert(table_view(table@) =~= ctcss_tokens());
    table
}

fn tone_off_table() -> (table: Vec<(Vec<u8>, u32)>)
    ensures
        table_view(table@) == tone_off_tokens(),
{
    let table = vec![
        (vec!['n' as u8, 'o' as u8], TONE_OFF_NONE),
        (vec!['c' as u8, 't' as u8, 'c' as u8, 's' as u8, 's' as u8, '_' as u8,
            'p' as u8, 'h' as u8, 'a' as u8, 's' as u8, 'e' as u8, '_' as u8,
            's' as u8, 'h' as u8, 'i' as u8, 'f' as u8, 't' as u8], TONE_OFF_PHASE_SHIFT),
        (vec!['c' as u8, 't' as u8, 'c' as u8, 's' as u8, 's' as u8, '_' as u8,
            't' as u8, 'o' as u8, 'n' as u8, 'e' as u8, '_' as u8,
            'r' as u8, 'e' as u8, 'm' as u8, 'o' as u8, 'v' as u8, 'e' as u8], TONE_OFF_TONE_REMOVE),
        (vec!['c' as u8, 't' as u8, 'c' as u8, 's' as u8, 's' as u8, '_' as u8,
            't' as u8, 'a' as u8, 'i' as u8, 'l' as u8, '_' as u8,
            't' as u8, 'o' as u8, 'n' as u8, 'e' as u8], TONE_OFF_TAIL_TONE),
    ];
    assert(table_view(table@)[1].0 =~= tone_off_tokens()[1].0);
    assert(table_view(table@)[2].0 =~= tone_off_tokens()[2].0);
    assert(table_view(table@)[3].0 =~= tone_off_tokens()[3].0);
    assert(table_view(table@) =~= tone_off_tokens());
    table
}

/// The outcome of parsing one token against a table: the written value and
/// result code.
pub open spec fn spec_parse(text: Option<Seq<u8>>, table: Seq<(Seq<u8>, u32)>, before: u32) -> (i32, u32) {
    match match text {
        Some(bytes) => spec_lookup(bytes, table),
        None => None,
    } {
        Some(value) => (RADIO_OK, value),
        None => (RADIO_INVALID_ARGUMENT, before),
    }
}

/// The view of an optional borrowed token.
pub open spec fn text_view(text: Option<&[u8]>) -> Option<Seq<u8>> {
    match text {
        Some(bytes) => Some(bytes@),
        None => None,
    }
}

/// Parse the established `rxdemod` symbolic assignment.
pub fn radio_parse_rx_audio_mode(text: Option<&[u8]>, output: &mut u32) -> (result: i32)
    ensures
        (result, *final(output)) == spec_parse(text_view(text), rx_audio_tokens(), *old(output)),
{
    let table = rx_audio_table();
    parse_into(text, output, &table)
}

/// Parse the established `carrierfrom` symbolic assignment.
pub fn radio_parse_carrier_source(text: Option<&[u8]>, output: &mut u32) -> (result: i32)
    ensures
        (result, *final(output)) == spec_parse(text_view(text), carrier_tokens(), *old(output)),
{
    let table = carrier_table();
    parse_into(text, output, &table)
}

/// Parse the established `ctcssfrom` symbolic assignment.
pub fn radio_parse_ctcss_source(text: Option<&[u8]>, output: &mut u32) -> (result: i32)
    ensures
        (result, *final(output)) == spec_parse(text_view(text), ctcss_tokens(), *old(output)),
{
    let table = ctcss_table();
    parse_into(text, output, &table)
}

/// Parse the established `hardware_ctcss_turnoff_mode` symbolic assignment.
pub fn radio_parse_tone_off_mode(text: Option<&[u8]>, output: &mut u32) -> (result: i32)
    ensures
        (result, *final(output)) == spec_parse(text_view(text), tone_off_tokens(), *old(output)),
{
    let table = tone_off_table();
    parse_into(text, output, &table)
}

} // verus!
