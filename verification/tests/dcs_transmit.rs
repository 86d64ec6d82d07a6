use lib::dcs_code::{configured_code, wire_word};
use lib::dcs_transmit::TransmitState;

/// Render symbol levels at a fixed peak, as the transmit generator does.
fn levels_to_pcm(levels: &[bool], peak: f32) -> Vec<f32> {
    levels.iter().map(|high| if *high { peak } else { -peak }).collect()
}

#[test]
fn known_wire_word_and_fractional_clock_survive_partitioning_and_inversion() {
    const WORD_023N: u32 = 0x76_3813;
    assert_eq!(wire_word(0o023), WORD_023N);
    assert_eq!(configured_code(-1), -1);
    assert_eq!(configured_code(0o1000), -1);
    assert_eq!(configured_code(0), 0);
    assert_eq!(configured_code(0o777), 0o777);
    for inverted in [0, 1] {
        let mut whole = TransmitState::new();
        let mut split = TransmitState::new();
        whole.configure(0o023, inverted);
        split.configure(0o023, inverted);
        let expected = levels_to_pcm(&whole.advance_symbols(9217), 0.25);
        let mut actual: Vec<f32> = Vec::new();
        let mut remaining = 9217_u32;
        while remaining > 0 {
            let block = remaining.min(791);
            actual.extend(levels_to_pcm(&split.advance_symbols(block), 0.25));
            remaining -= block;
        }
        assert_eq!(actual, expected);
        for (index, sample) in actual.iter().enumerate() {
            let bit = (index as u64 * 1344 / 480_000) % 23;
            let high = (WORD_023N & (1 << bit) != 0) ^ (inverted != 0);
            assert_eq!(*sample, if high { 0.25 } else { -0.25 });
        }
        assert_eq!(whole.phase, (9217 * 1344 / 480_000) % 23);
        assert_eq!(whole.bit_accumulator, (9217 * 1344) % 480_000);
        assert_eq!(whole.phase, split.phase);
        assert_eq!(whole.bit_accumulator, split.bit_accumulator);
        let phase = split.phase;
        split.configure(0o777, inverted);
        assert_eq!(split.phase, phase);
        assert_eq!(split.bit_accumulator, 0);
    }
}

const RADIO_OK: i32 = lib::RADIO_OK;
const RADIO_INVALID_ARGUMENT: i32 = lib::RADIO_INVALID_ARGUMENT;
const RADIO_FRAME_COUNT_EXCEEDED: i32 = -3;

/// A radio's DCS generator entry: absent arguments are `None`, spans over the
/// radio's maximum frame count are refused, and a disabled generator or a
/// non-positive peak writes silence without advancing the word clock.
struct Radio {
    dcs: TransmitState,
    maximum_frame_count: u32,
}

fn create_radio_with_maximum_frame_count(maximum_frame_count: u32) -> Radio {
    Radio { dcs: TransmitState::new(), maximum_frame_count }
}

fn radio_dcs_configure_transmit(radio: Option<&mut Radio>, code: i32, inverted: u32) -> i32 {
    match radio {
        Some(radio) => {
            radio.dcs.configure(code, inverted);
            RADIO_OK
        }
        None => RADIO_INVALID_ARGUMENT,
    }
}

fn radio_dcs_generate_f32(
    radio: Option<&mut Radio>,
    output: Option<&mut [f32]>,
    frame_count: u32,
    peak: f32,
    enabled: u32,
) -> i32 {
    let Some(radio) = radio else {
        return RADIO_INVALID_ARGUMENT;
    };
    if frame_count > radio.maximum_frame_count {
        return RADIO_FRAME_COUNT_EXCEEDED;
    }
    let output = match output {
        Some(output) => output,
        None if frame_count == 0 => return RADIO_OK,
        None => return RADIO_INVALID_ARGUMENT,
    };
    if enabled == 0 || peak <= 0.0 {
        output[..frame_count as usize].fill(0.0);
        return RADIO_OK;
    }
    let levels = radio.dcs.advance_symbols(frame_count);
    output[..frame_count as usize].copy_from_slice(&levels_to_pcm(&levels, peak));
    RADIO_OK
}

#[test]
fn dcs_generation_is_callback_partition_invariant_and_configuration_preserves_word_phase() {
    const PEAK: f32 = 2_000.0 / 32_767.0;
    const WORD_431N: u32 = 0x6c5919;
    let mut contiguous = create_radio_with_maximum_frame_count(1_000);
    let mut fragmented = create_radio_with_maximum_frame_count(1_000);
    let mut reconfigured = create_radio_with_maximum_frame_count(512);
    let mut one_block = [0.0_f32; 1_000];
    let mut fragments = [0.0_f32; 1_000];
    let mut advance = [0.0_f32; 358];
    let mut after_configuration = [0.0_f32; 1];

    assert_eq!(radio_dcs_configure_transmit(Some(&mut contiguous), 0o023, 0), RADIO_OK);
    assert_eq!(radio_dcs_configure_transmit(Some(&mut fragmented), 0o023, 0), RADIO_OK);
    assert_eq!(radio_dcs_generate_f32(Some(&mut contiguous), Some(&mut one_block), 1_000, PEAK, 1), RADIO_OK);
    assert_eq!(radio_dcs_generate_f32(Some(&mut fragmented), Some(&mut fragments), 479, PEAK, 1), RADIO_OK);
    assert_eq!(radio_dcs_generate_f32(Some(&mut fragmented), Some(&mut fragments[479..]), 521, PEAK, 1), RADIO_OK);
    assert_eq!(one_block, fragments);

    assert_eq!(radio_dcs_configure_transmit(Some(&mut reconfigured), 0o023, 0), RADIO_OK);
    assert_eq!(radio_dcs_generate_f32(Some(&mut reconfigured), Some(&mut advance), 358, PEAK, 1), RADIO_OK);
    assert_eq!(radio_dcs_configure_transmit(Some(&mut reconfigured), 0o431, 0), RADIO_OK);
    assert_eq!(
        radio_dcs_generate_f32(Some(&mut reconfigured), Some(&mut after_configuration), 1, PEAK, 1),
        RADIO_OK
    );
    assert_eq!(after_configuration[0].is_sign_positive(), (WORD_431N >> 1) & 1 != 0);
}

#[test]
fn dcs_generation_validates_bounds_and_preserves_invalid_configuration_outcome() {
    const PEAK: f32 = 2_000.0 / 32_767.0;
    let mut radio = create_radio_with_maximum_frame_count(4);
    let mut invalid = create_radio_with_maximum_frame_count(4);
    let mut output = [0.0_f32; 5];

    assert_eq!(radio_dcs_configure_transmit(None, 0o023, 0), RADIO_INVALID_ARGUMENT);
    assert_eq!(radio_dcs_generate_f32(None, Some(&mut output), 1, PEAK, 1), RADIO_INVALID_ARGUMENT);
    assert_eq!(radio_dcs_generate_f32(Some(&mut radio), None, 1, PEAK, 1), RADIO_INVALID_ARGUMENT);
    assert_eq!(radio_dcs_generate_f32(Some(&mut radio), Some(&mut output), 5, PEAK, 1), RADIO_FRAME_COUNT_EXCEEDED);
    assert_eq!(radio_dcs_generate_f32(Some(&mut radio), None, 0, PEAK, 1), RADIO_OK);
    assert_eq!(radio_dcs_generate_f32(Some(&mut radio), None, 0, PEAK, 0), RADIO_OK);

    assert_eq!(radio_dcs_configure_transmit(Some(&mut invalid), 0o1000, 0), RADIO_OK);
    assert_eq!(radio_dcs_generate_f32(Some(&mut invalid), Some(&mut output), 1, PEAK, 1), RADIO_OK);
    assert_eq!(output[0].is_sign_positive(), wire_word(-1) & 1 != 0);
}

#[test]
fn disabled_or_silent_generation_holds_the_word_clock() {
    let mut radio = create_radio_with_maximum_frame_count(8);
    radio_dcs_configure_transmit(Some(&mut radio), 0o023, 0);
    let mut output = [1.0_f32; 4];
    assert_eq!(radio_dcs_generate_f32(Some(&mut radio), Some(&mut output), 4, 0.25, 0), RADIO_OK);
    assert_eq!(output, [0.0; 4]);
    assert_eq!((radio.dcs.phase, radio.dcs.bit_accumulator), (0, 0));
    output = [1.0; 4];
    assert_eq!(radio_dcs_generate_f32(Some(&mut radio), Some(&mut output), 4, 0.0, 1), RADIO_OK);
    assert_eq!(output, [0.0; 4]);
    assert_eq!((radio.dcs.phase, radio.dcs.bit_accumulator), (0, 0));
}
