//! Transmitter output routing and signed-16 output mixing.
//!
//! Each of the two output channels carries program audio, subaudible
//! signaling, both, or nothing; quantized program and tone codes add into
//! the channel with signed-16 saturation.

use vstd::prelude::*;

verus! {

/// One output assignment accepted by the transmitter renderer.
#[derive(Clone, Copy, Debug, PartialEq, Eq, Structural)]
pub enum OutputRoute {
    /// Silence.
    Disabled,
    /// Program audio only.
    Voice,
    /// Subaudible signaling only.
    Tone,
    /// Program audio and subaudible signaling.
    Composite,
    /// Program audio on the auxiliary channel.
    AuxiliaryVoice,
}

impl OutputRoute {
    /// Decode the numeric route selector, reporting `invalid_argument` for
    /// an unknown one.
    pub fn from_ffi(value: u32, invalid_argument: i32) -> (route: Result<Self, i32>)
        ensures
            value == 0 ==> route == Ok::<OutputRoute, i32>(OutputRoute::Disabled),
            value == 1 ==> route == Ok::<OutputRoute, i32>(OutputRoute::Voice),
            value == 2 ==> route == Ok::<OutputRoute, i32>(OutputRoute::Tone),
            value == 3 ==> route == Ok::<OutputRoute, i32>(OutputRoute::Composite),
            value == 4 ==> route == Ok::<OutputRoute, i32>(OutputRoute::AuxiliaryVoice),
            value > 4 ==> route == Err::<OutputRoute, i32>(invalid_argument),
    {
        match value {
            0 => Ok(OutputRoute::Disabled),
            1 => Ok(OutputRoute::Voice),
            2 => Ok(OutputRoute::Tone),
            3 => Ok(OutputRoute::Composite),
            4 => Ok(OutputRoute::AuxiliaryVoice),
            _ => Err(invalid_argument),
        }
    }

    /// Whether the route carries program audio.
    pub open spec fn spec_has_program(self) -> bool {
        self == OutputRoute::Voice || self == OutputRoute::Composite || self == OutputRoute::AuxiliaryVoice
    }

    /// Whether the route carries subaudible signaling.
    pub open spec fn spec_has_tone(self) -> bool {
        self == OutputRoute::Tone || self == OutputRoute::Composite
    }

    /// Whether the route carries program audio.
    pub fn has_program(self) -> (carries: bool)
        ensures
            carries == self.spec_has_program(),
    {
        match self {
            OutputRoute::Voice | OutputRoute::Composite | OutputRoute::AuxiliaryVoice => true,
            _ => false,
        }
    }

    /// Whether the route carries subaudible signaling.
    pub fn has_tone(self) -> (carries: bool)
        ensures
            carries == self.spec_has_tone(),
    {
        match self {
            OutputRoute::Tone | OutputRoute::Composite => true,
            _ => false,
        }
    }
}

/// Signed-16 saturating addition.
pub open spec fn spec_saturating_add(a: i16, b: i16) -> i16 {
    if a + b > i16::MAX { i16::MAX } else if a + b < i16::MIN { i16::MIN } else { (a + b) as i16 }
}

/// One channel after mixing in the frame's program and tone codes as its
/// route selects: program first, then tone.
pub open spec fn spec_mix(existing: i16, route: OutputRoute, program: i16, tone: i16) -> i16 {
    let with_program = if route.spec_has_program() { spec_saturating_add(existing, program) } else { existing };
    if route.spec_has_tone() { spec_saturating_add(with_program, tone) } else { with_program }
}

/// Signed-16 saturating addition.
fn saturating_add(a: i16, b: i16) -> (sum: i16)
    ensures
        sum == spec_saturating_add(a, b),
{
    let wide: i32 = a as i32 + b as i32;
    if wide > i16::MAX as i32 {
        i16::MAX
    } else if wide < i16::MIN as i32 {
        i16::MIN
    } else {
        wide as i16
    }
}

/// Mix one frame's program and tone codes into its interleaved channel pair.
pub fn mix_frame(
    stereo: &mut Vec<i16>,
    frame: usize,
    output_a: OutputRoute,
    output_b: OutputRoute,
    program: i16,
    tone_a: i16,
    tone_b: i16,
)
    requires
        2 * frame + 1 < old(stereo).len(),
    ensures
        final(stereo)@ == old(stereo)@.update(
            2 * frame as int,
            spec_mix(old(stereo)@[2 * frame as int], output_a, program, tone_a),
        ).update(2 * frame as int + 1, spec_mix(old(stereo)@[2 * frame as int + 1], output_b, program, tone_b)),
{
    let left = 2 * frame;
    let mut a = stereo[left];
    if output_a.has_program() {
        a = saturating_add(a, program);
    }
    if output_a.has_tone() {
        a = saturating_add(a, tone_a);
    }
    stereo.set(left, a);
    let mut b = stereo[left + 1];
    if output_b.has_program() {
        b = saturating_add(b, program);
    }
    if output_b.has_tone() {
        b = saturating_add(b, tone_b);
    }
    stereo.set(left + 1, b);
}

} // verus!
