use lib::receive_profiles::{baseband, ctcss, noise};

#[test]
fn profiles_hide_fixed_tables_behind_stable_choices() {
    let baseband = baseband();
    assert_eq!(baseband.coefficients.len(), 66);
    assert_eq!(baseband.divisor, 131_072);
    assert_eq!(noise(0).unwrap().coefficients.len(), 66);
    assert_eq!(noise(1).unwrap().coefficients.len(), 66);
    assert!(noise(2).is_none());
    assert_eq!(ctcss(1 << 30).coefficients.len(), 88);
    assert_eq!(ctcss(1 << 31).coefficients.len(), 66);
}

#[test]
fn profile_tables_keep_their_deployed_end_taps_and_divisors() {
    assert_eq!(baseband().coefficients[0], 259);
    assert_eq!(baseband().coefficients[65], 393);
    assert_eq!(noise(0).unwrap().divisor, 65_536);
    assert_eq!(noise(1).unwrap().coefficients[32], 22_110);
    assert_eq!(ctcss(1 << 30).divisor, 524_288);
    assert_eq!(ctcss(1 << 31).divisor, 262_144);
    assert_eq!(ctcss(0).coefficients[43], 31_058);
}
