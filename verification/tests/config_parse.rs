use lib::config_parse::{
    radio_parse_carrier_source, radio_parse_ctcss_source, radio_parse_rx_audio_mode, radio_parse_tone_off_mode,
    CARRIER_DISABLED, CARRIER_DSP, CARRIER_PARALLEL, CARRIER_PARALLEL_INVERTED, CARRIER_USB, CARRIER_USB_INVERTED,
    CARRIER_VOX, CTCSS_DISABLED, CTCSS_DSP, CTCSS_PARALLEL, CTCSS_PARALLEL_INVERTED, CTCSS_USB, CTCSS_USB_INVERTED,
    RX_AUDIO_DISABLED, RX_AUDIO_FLAT, RX_AUDIO_SPEAKER, TONE_OFF_NONE, TONE_OFF_PHASE_SHIFT, TONE_OFF_TAIL_TONE,
    TONE_OFF_TONE_REMOVE,
};
use lib::{RADIO_INVALID_ARGUMENT, RADIO_OK};

type Parser = fn(Option<&[u8]>, &mut u32) -> i32;

fn parse(parser: Parser, text: &str) -> (i32, u32) {
    let mut value = u32::MAX;
    let result = parser(Some(text.as_bytes()), &mut value);
    (result, value)
}

#[test]
fn parser_tokens_preserve_all_legacy_assignments_and_ascii_case() {
    for (token, value) in [("no", RX_AUDIO_DISABLED), ("SpEaKeR", RX_AUDIO_SPEAKER), ("FLAT", RX_AUDIO_FLAT)] {
        assert_eq!(parse(radio_parse_rx_audio_mode, token), (RADIO_OK, value));
    }
    for (token, value) in [
        ("no", CARRIER_DISABLED),
        ("DSP", CARRIER_DSP),
        ("Vox", CARRIER_VOX),
        ("usb", CARRIER_USB),
        ("UsbInvert", CARRIER_USB_INVERTED),
        ("PP", CARRIER_PARALLEL),
        ("pPiNvErT", CARRIER_PARALLEL_INVERTED),
    ] {
        assert_eq!(parse(radio_parse_carrier_source, token), (RADIO_OK, value));
    }
    for (token, value) in [
        ("no", CTCSS_DISABLED),
        ("USB", CTCSS_USB),
        ("UsbInvert", CTCSS_USB_INVERTED),
        ("dsp", CTCSS_DSP),
        ("PP", CTCSS_PARALLEL),
        ("pPiNvErT", CTCSS_PARALLEL_INVERTED),
    ] {
        assert_eq!(parse(radio_parse_ctcss_source, token), (RADIO_OK, value));
    }
    for (token, value) in [
        ("no", TONE_OFF_NONE),
        ("CtCsS_PhAsE_ShIfT", TONE_OFF_PHASE_SHIFT),
        ("CTCSS_TONE_REMOVE", TONE_OFF_TONE_REMOVE),
        ("ctcss_tail_tone", TONE_OFF_TAIL_TONE),
    ] {
        assert_eq!(parse(radio_parse_tone_off_mode, token), (RADIO_OK, value));
    }
}

#[test]
fn parser_failures_preserve_output_and_reject_unrecognized_tokens() {
    let parsers: [Parser; 4] =
        [radio_parse_rx_audio_mode, radio_parse_carrier_source, radio_parse_ctcss_source, radio_parse_tone_off_mode];
    for parser in parsers {
        let mut value = 0x5a5a_5a5a_u32;
        assert_eq!(parser(Some(b"flat "), &mut value), RADIO_INVALID_ARGUMENT);
        assert_eq!(value, 0x5a5a_5a5a);
        assert_eq!(parser(Some(b"yes"), &mut value), RADIO_INVALID_ARGUMENT);
        assert_eq!(value, 0x5a5a_5a5a);
        assert_eq!(parser(None, &mut value), RADIO_INVALID_ARGUMENT);
        assert_eq!(value, 0x5a5a_5a5a);
    }
}

#[test]
fn non_ascii_bytes_never_match_a_token() {
    let mut value = 7;
    assert_eq!(radio_parse_rx_audio_mode(Some(&[0xce, 0x6f]), &mut value), RADIO_INVALID_ARGUMENT);
    assert_eq!(radio_parse_carrier_source(Some(b""), &mut value), RADIO_INVALID_ARGUMENT);
    assert_eq!(value, 7);
}
