use lib::transmit_renderer::{mix_frame, OutputRoute};
use lib::RADIO_INVALID_ARGUMENT;

#[test]
fn route_selectors_decode_and_reject_unknown_values() {
    assert_eq!(OutputRoute::from_ffi(0, RADIO_INVALID_ARGUMENT), Ok(OutputRoute::Disabled));
    assert_eq!(OutputRoute::from_ffi(1, RADIO_INVALID_ARGUMENT), Ok(OutputRoute::Voice));
    assert_eq!(OutputRoute::from_ffi(2, RADIO_INVALID_ARGUMENT), Ok(OutputRoute::Tone));
    assert_eq!(OutputRoute::from_ffi(3, RADIO_INVALID_ARGUMENT), Ok(OutputRoute::Composite));
    assert_eq!(OutputRoute::from_ffi(4, RADIO_INVALID_ARGUMENT), Ok(OutputRoute::AuxiliaryVoice));
    assert_eq!(OutputRoute::from_ffi(5, -7), Err(-7));
    assert!(OutputRoute::Composite.has_program() && OutputRoute::Composite.has_tone());
    assert!(OutputRoute::AuxiliaryVoice.has_program() && !OutputRoute::AuxiliaryVoice.has_tone());
    assert!(!OutputRoute::Tone.has_program() && OutputRoute::Tone.has_tone());
    assert!(!OutputRoute::Disabled.has_program() && !OutputRoute::Disabled.has_tone());
}

#[test]
fn mix_frame_adds_program_then_tone_per_route() {
    let mut stereo = vec![1_i16, 2, 10, 20];
    mix_frame(&mut stereo, 1, OutputRoute::Voice, OutputRoute::Tone, 100, 7, 9);
    assert_eq!(stereo, [1, 2, 110, 29]);
    mix_frame(&mut stereo, 0, OutputRoute::Composite, OutputRoute::Disabled, 100, 7, 9);
    assert_eq!(stereo, [108, 2, 110, 29]);
}

#[test]
fn mix_frame_saturates_each_addition() {
    let mut stereo = vec![32_000_i16, -32_000];
    mix_frame(&mut stereo, 0, OutputRoute::Composite, OutputRoute::Composite, 1_000, -2_000, -1_000);
    // Program saturates first (32767), then the tone subtracts.
    assert_eq!(stereo, [30_767, -32_000]);
    let mut low = vec![-32_000_i16, 0];
    mix_frame(&mut low, 0, OutputRoute::Tone, OutputRoute::AuxiliaryVoice, -5, -1_000, 3);
    assert_eq!(low, [-32_768, -5]);
}
