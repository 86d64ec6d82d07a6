use lib::dcs_code::{code_supported, decode_word, syndrome_table, WORD_MASK};
use lib::dcs_receive::{process_received_symbol, ReceivePhase, ReceiveState, SYMBOL_COUNT};

const WORD_023N: u32 = 0x76_3813;

#[test]
fn golay_corrects_every_three_bit_error_and_rejects_other_codes() {
    let syndrome = syndrome_table();
    assert!(decode_word(&syndrome, 0o023, WORD_023N));
    for first in 0..23 {
        let one = 1 << first;
        assert!(decode_word(&syndrome, 0o023, WORD_023N ^ one));
        for second in first + 1..23 {
            let two = one | (1 << second);
            assert!(decode_word(&syndrome, 0o023, WORD_023N ^ two));
            for third in second + 1..23 {
                assert!(decode_word(&syndrome, 0o023, WORD_023N ^ two ^ (1 << third)));
            }
        }
    }
    assert!(!decode_word(&syndrome, 0o025, WORD_023N));
    assert!(!decode_word(&syndrome, 0o023, 0));
}

#[test]
fn consecutive_words_qualify_refresh_hold_and_expire_after_missing_symbols() {
    let syndrome = syndrome_table();
    let mut receiver = ReceivePhase::default();
    for word in 1..=3 {
        for symbol in 0..SYMBOL_COUNT {
            process_received_symbol(&syndrome, 0o023, &mut receiver, WORD_023N & (1 << symbol) != 0);
        }
        assert_eq!(receiver.match_count, word.min(2));
        assert_eq!(receiver.qualified, word >= 2);
        assert_eq!(receiver.symbols_since_match, 0);
        if word >= 2 {
            assert_eq!(receiver.hold, SYMBOL_COUNT);
        }
    }
    // A non-code shift register cannot refresh qualification during dropout.
    receiver.word = 0;
    for remaining in (0..SYMBOL_COUNT).rev() {
        process_received_symbol(&syndrome, 0o023, &mut receiver, false);
        assert_eq!(receiver.hold, remaining);
        assert_eq!(receiver.qualified, remaining != 0);
    }
    assert_eq!(receiver.match_count, 0);
}

/// A matching word at the wrong spacing restarts, rather than advances,
/// legacy two-word qualification.
#[test]
fn nonconsecutive_matching_word_restarts_qualification() {
    let syndrome = syndrome_table();
    let mut receiver = ReceivePhase {
        word: (WORD_023N << 1) & WORD_MASK,
        symbols_since_match: 1,
        match_count: 1,
        ..ReceivePhase::default()
    };

    process_received_symbol(&syndrome, 0o023, &mut receiver, WORD_023N & (1_u32 << 22) != 0);
    assert_eq!(receiver.match_count, 1);
    assert_eq!(receiver.symbols_since_match, 0);
    assert!(!receiver.qualified);
}

#[test]
fn configuration_enables_supported_codes_and_resets_qualification() {
    let mut state = ReceiveState::new();
    assert!(!state.enabled());
    assert!(!state.valid());
    state.configure(0o023, 0);
    assert!(state.enabled());
    assert_eq!(state.receive_code(), 0o023);
    state.configure(0o777, 0);
    assert!(state.enabled());
    assert!(!state.valid());
    assert_eq!(state.dc_estimate_q15(), 0);
    for index in 0..lib::dcs_receive::PHASE_COUNT {
        assert!(!state.phase(index).qualified);
    }
    for invalid in [-1, 0o1000] {
        state.configure(invalid, 0);
        assert!(!state.enabled());
        assert_eq!(state.receive_code(), -1);
    }
    assert!(code_supported(0));
    assert!(code_supported(0o777));
}
