use lib::ctcss_transmit::{legacy_step, LEGACY_SINE_STEPS};

#[test]
fn legacy_step_truncates_each_division() {
    assert_eq!(LEGACY_SINE_STEPS, 256);
    // 100 Hz: 256 * 1000 * 128 / 8000 = 4096, then / 10 = 409.
    assert_eq!(legacy_step(1_000), 409);
    // 67.0 Hz: 256 * 670 * 128 / 8000 = 2744 (2744.32 truncated), / 10 = 274.
    assert_eq!(legacy_step(670), 274);
    assert_eq!(legacy_step(0), 0);
    assert_eq!(legacy_step(1), 0);
}
