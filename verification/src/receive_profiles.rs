//! Fixed receive-detector profiles behind the session configuration.
//!
//! These tables and fixed-point normalization values preserve the deployed
//! discriminator-noise and CTCSS detector response.  Callers select only the
//! documented high-level noise profile and the configured tone mask.

use vstd::prelude::*;

verus! {

/// Fixed FIR coefficients and their historical normalization divisor.
#[derive(Clone, Debug)]
pub struct FilterProfile {
    /// Signed-16 coefficient table.
    pub coefficients: Vec<i16>,
    /// Accumulator normalization divisor.
    pub divisor: i32,
}

/// Native-to-baseband 3 kHz low-pass coefficients.
pub open spec fn spec_baseband_3khz() -> Seq<i16> {
    seq![
        259i16, 58i16, -185i16, -437i16, -654i16, -793i16, -815i16, -696i16, -434i16, -48i16, 414i16, 886i16,
        1284i16, 1523i16, 1529i16, 1254i16, 691i16, -117i16, -1078i16, -2049i16, -2854i16, -3303i16, -3220i16, -2472i16,
        -995i16, 1187i16, 3952i16, 7086i16, 10300i16, 13270i16, 15672i16, 17236i16, 17778i16, 17236i16, 15672i16, 13270i16,
        10300i16, 7086i16, 3952i16, 1187i16, -995i16, -2472i16, -3220i16, -3303i16, -2854i16, -2049i16, -1078i16, -117i16,
        691i16, 1254i16, 1529i16, 1523i16, 1284i16, 886i16, 414i16, -48i16, -434i16, -696i16, -815i16, -793i16,
        -654i16, -437i16, -185i16, 58i16, 259i16, 393i16,
    ]
}

/// Native-to-baseband 3 kHz low-pass coefficients.
fn baseband_3khz() -> (table: Vec<i16>)
    ensures
        table@ == spec_baseband_3khz(),
{
    let table: Vec<i16> = vec![
        259, 58, -185, -437, -654, -793, -815, -696, -434, -48, 414, 886,
        1284, 1523, 1529, 1254, 691, -117, -1078, -2049, -2854, -3303, -3220, -2472,
        -995, 1187, 3952, 7086, 10300, 13270, 15672, 17236, 17778, 17236, 15672, 13270,
        10300, 7086, 3952, 1187, -995, -2472, -3220, -3303, -2854, -2049, -1078, -117,
        691, 1254, 1529, 1523, 1284, 886, 414, -48, -434, -696, -815, -793,
        -654, -437, -185, 58, 259, 393,
    ];
    assert(table@ =~= spec_baseband_3khz());
    table
}

/// Standard discriminator-noise high-pass coefficients.
pub open spec fn spec_noise_standard() -> Seq<i16> {
    seq![
        139i16, -182i16, -269i16, -66i16, 56i16, 59i16, 250i16, 395i16, -80i16, -775i16, -557i16, 437i16,
        779i16, 210i16, -17i16, 123i16, -692i16, -1664i16, -256i16, 2495i16, 2237i16, -1018i16, -2133i16, -478i16,
        -1134i16, -2711i16, 2642i16, 10453i16, 4010i16, -14385i16, -16488i16, 6954i16, 23030i16, 6954i16, -16488i16, -14385i16,
        4010i16, 10453i16, 2642i16, -2711i16, -1134i16, -478i16, -2133i16, -1018i16, 2237i16, 2495i16, -256i16, -1664i16,
        -692i16, 123i16, -17i16, 210i16, 779i16, 437i16, -557i16, -775i16, -80i16, 395i16, 250i16, 59i16,
        56i16, -66i16, -269i16, -182i16, 139i16, 257i16,
    ]
}

/// Standard discriminator-noise high-pass coefficients.
fn noise_standard() -> (table: Vec<i16>)
    ensures
        table@ == spec_noise_standard(),
{
    let table: Vec<i16> = vec![
        139, -182, -269, -66, 56, 59, 250, 395, -80, -775, -557, 437,
        779, 210, -17, 123, -692, -1664, -256, 2495, 2237, -1018, -2133, -478,
        -1134, -2711, 2642, 10453, 4010, -14385, -16488, 6954, 23030, 6954, -16488, -14385,
        4010, 10453, 2642, -2711, -1134, -478, -2133, -1018, 2237, 2495, -256, -1664,
        -692, 123, -17, 210, 779, 437, -557, -775, -80, 395, 250, 59,
        56, -66, -269, -182, 139, 257,
    ];
    assert(table@ =~= spec_noise_standard());
    table
}

/// Alternate discriminator-noise high-pass coefficients.
pub open spec fn spec_noise_alternate() -> Seq<i16> {
    seq![
        581i16, -251i16, -1027i16, -766i16, 63i16, 346i16, 148i16, 459i16, 1165i16, 847i16, -824i16, -1994i16,
        -1147i16, 462i16, 704i16, 32i16, 651i16, 2277i16, 1790i16, -1635i16, -4071i16, -2240i16, 1060i16, 1127i16,
        -502i16, 1963i16, 7399i16, 5862i16, -6693i16, -17483i16, -10387i16, 10549i16, 22110i16, 10549i16, -10387i16, -17483i16,
        -6693i16, 5862i16, 7399i16, 1963i16, -502i16, 1127i16, 1060i16, -2240i16, -4071i16, -1635i16, 1790i16, 2277i16,
        651i16, 32i16, 704i16, 462i16, -1147i16, -1994i16, -824i16, 847i16, 1165i16, 459i16, 148i16, 346i16,
        63i16, -766i16, -1027i16, -251i16, 581i16, 537i16,
    ]
}

/// Alternate discriminator-noise high-pass coefficients.
fn noise_alternate() -> (table: Vec<i16>)
    ensures
        table@ == spec_noise_alternate(),
{
    let table: Vec<i16> = vec![
        581, -251, -1027, -766, 63, 346, 148, 459, 1165, 847, -824, -1994,
        -1147, 462, 704, 32, 651, 2277, 1790, -1635, -4071, -2240, 1060, 1127,
        -502, 1963, 7399, 5862, -6693, -17483, -10387, 10549, 22110, 10549, -10387, -17483,
        -6693, 5862, 7399, 1963, -502, 1127, 1060, -2240, -4071, -1635, 1790, 2277,
        651, 32, 704, 462, -1147, -1994, -824, 847, 1165, 459, 148, 346,
        63, -766, -1027, -251, 581, 537,
    ];
    assert(table@ =~= spec_noise_alternate());
    table
}

/// CTCSS detector low-pass coefficients for tones below 203.5 Hz.
pub open spec fn spec_ctcss_215hz() -> Seq<i16> {
    seq![
        2038i16, 2049i16, 1991i16, 1859i16, 1650i16, 1363i16, 999i16, 562i16, 58i16, -502i16, -1106i16, -1739i16,
        -2382i16, -3014i16, -3612i16, -4153i16, -4610i16, -4959i16, -5172i16, -5226i16, -5098i16, -4769i16, -4222i16, -3444i16,
        -2430i16, -1176i16, 310i16, 2021i16, 3937i16, 6035i16, 8284i16, 10648i16, 13086i16, 15550i16, 17993i16, 20363i16,
        22608i16, 24677i16, 26522i16, 28099i16, 29369i16, 30299i16, 30867i16, 31058i16, 30867i16, 30299i16, 29369i16, 28099i16,
        26522i16, 24677i16, 22608i16, 20363i16, 17993i16, 15550i16, 13086i16, 10648i16, 8284i16, 6035i16, 3937i16, 2021i16,
        310i16, -1176i16, -2430i16, -3444i16, -4222i16, -4769i16, -5098i16, -5226i16, -5172i16, -4959i16, -4610i16, -4153i16,
        -3612i16, -3014i16, -2382i16, -1739i16, -1106i16, -502i16, 58i16, 562i16, 999i16, 1363i16, 1650i16, 1859i16,
        1991i16, 2049i16, 2038i16, 1966i16,
    ]
}

/// CTCSS detector low-pass coefficients for tones below 203.5 Hz.
fn ctcss_215hz() -> (table: Vec<i16>)
    ensures
        table@ == spec_ctcss_215hz(),
{
    let table: Vec<i16> = vec![
        2038, 2049, 1991, 1859, 1650, 1363, 999, 562, 58, -502, -1106, -1739,
        -2382, -3014, -3612, -4153, -4610, -4959, -5172, -5226, -5098, -4769, -4222, -3444,
        -2430, -1176, 310, 2021, 3937, 6035, 8284, 10648, 13086, 15550, 17993, 20363,
        22608, 24677, 26522, 28099, 29369, 30299, 30867, 31058, 30867, 30299, 29369, 28099,
        26522, 24677, 22608, 20363, 17993, 15550, 13086, 10648, 8284, 6035, 3937, 2021,
        310, -1176, -2430, -3444, -4222, -4769, -5098, -5226, -5172, -4959, -4610, -4153,
        -3612, -3014, -2382, -1739, -1106, -502, 58, 562, 999, 1363, 1650, 1859,
        1991, 2049, 2038, 1966,
    ];
    assert(table@ =~= spec_ctcss_215hz());
    table
}

/// Wider CTCSS detector low-pass coefficients for tones from 203.5 Hz.
pub open spec fn spec_ctcss_250hz() -> Seq<i16> {
    seq![
        676i16, 364i16, -3i16, -415i16, -860i16, -1320i16, -1777i16, -2209i16, -2593i16, -2904i16, -3119i16, -3212i16,
        -3162i16, -2949i16, -2557i16, -1975i16, -1198i16, -226i16, 932i16, 2263i16, 3744i16, 5346i16, 7034i16, 8767i16,
        10499i16, 12184i16, 13770i16, 15211i16, 16462i16, 17480i16, 18234i16, 18696i16, 18852i16, 18696i16, 18234i16, 17480i16,
        16462i16, 15211i16, 13770i16, 12184i16, 10499i16, 8767i16, 7034i16, 5346i16, 3744i16, 2263i16, 932i16, -226i16,
        -1198i16, -1975i16, -2557i16, -2949i16, -3162i16, -3212i16, -3119i16, -2904i16, -2593i16, -2209i16, -1777i16, -1320i16,
        -860i16, -415i16, -3i16, 364i16, 676i16, 927i16,
    ]
}

/// Wider CTCSS detector low-pass coefficients for tones from 203.5 Hz.
fn ctcss_250hz() -> (table: Vec<i16>)
    ensures
        table@ == spec_ctcss_250hz(),
{
    let table: Vec<i16> = vec![
        676, 364, -3, -415, -860, -1320, -1777, -2209, -2593, -2904, -3119, -3212,
        -3162, -2949, -2557, -1975, -1198, -226, 932, 2263, 3744, 5346, 7034, 8767,
        10499, 12184, 13770, 15211, 16462, 17480, 18234, 18696, 18852, 18696, 18234, 17480,
        16462, 15211, 13770, 12184, 10499, 8767, 7034, 5346, 3744, 2263, 932, -226,
        -1198, -1975, -2557, -2949, -3162, -3212, -3119, -2904, -2593, -2209, -1777, -1320,
        -860, -415, -3, 364, 676, 927,
    ];
    assert(table@ =~= spec_ctcss_250hz());
    table
}

/// Divisor of the native-to-baseband profile.
pub const BASEBAND_DIVISOR: i32 = 131_072;

/// Divisor of both discriminator-noise profiles.
pub const NOISE_DIVISOR: i32 = 65_536;

/// Divisor of the narrow CTCSS detector profile.
pub const CTCSS_NARROW_DIVISOR: i32 = 524_288;

/// Divisor of the wide CTCSS detector profile.
pub const CTCSS_WIDE_DIVISOR: i32 = 262_144;

/// The fixed native-to-baseband profile.
pub fn baseband() -> (profile: FilterProfile)
    ensures
        profile.coefficients@ == spec_baseband_3khz(),
        profile.divisor == BASEBAND_DIVISOR,
{
    FilterProfile { coefficients: baseband_3khz(), divisor: BASEBAND_DIVISOR }
}

/// Resolve the documented discriminator-noise profile number.
pub fn noise(profile: u32) -> (selected: Option<FilterProfile>)
    ensures
        profile == 0 ==> (selected matches Some(p) && p.coefficients@ == spec_noise_standard()
            && p.divisor == NOISE_DIVISOR),
        profile == 1 ==> (selected matches Some(p) && p.coefficients@ == spec_noise_alternate()
            && p.divisor == NOISE_DIVISOR),
        profile > 1 ==> selected is None,
{
    match profile {
        0 => Some(FilterProfile { coefficients: noise_standard(), divisor: NOISE_DIVISOR }),
        1 => Some(FilterProfile { coefficients: noise_alternate(), divisor: NOISE_DIVISOR }),
        _ => None,
    }
}

/// Whether a tone mask selects only tones below 203.5 Hz (table indices
/// below 31).
pub open spec fn spec_narrow_tones(tone_mask: u64) -> bool {
    tone_mask < 0x8000_0000
}

/// Select the wider detector low-pass for an enabled tone at or above 203.5 Hz.
pub fn ctcss(tone_mask: u64) -> (profile: FilterProfile)
    ensures
        spec_narrow_tones(tone_mask) ==> profile.coefficients@ == spec_ctcss_215hz()
            && profile.divisor == CTCSS_NARROW_DIVISOR,
        !spec_narrow_tones(tone_mask) ==> profile.coefficients@ == spec_ctcss_250hz()
            && profile.divisor == CTCSS_WIDE_DIVISOR,
{
    let high_tones: u64 = u64::MAX << 31u64;
    assert(high_tones == 0xffff_ffff_8000_0000u64) by (bit_vector)
        requires high_tones == u64::MAX << 31u64;
    assert((tone_mask & 0xffff_ffff_8000_0000u64 == 0) == (tone_mask < 0x8000_0000u64)) by (bit_vector);
    if tone_mask & high_tones == 0 {
        FilterProfile { coefficients: ctcss_215hz(), divisor: CTCSS_NARROW_DIVISOR }
    } else {
        FilterProfile { coefficients: ctcss_250hz(), divisor: CTCSS_WIDE_DIVISOR }
    }
}

} // verus!
