use vstd::prelude::*;

verus! {

/// Presentation data of an integer parameter. The synthesis logic never
/// reads it.
pub trait IntegerParameter: Copy + Default {
    const LABEL: &'static str;
    const DESCRIPTION: &'static str = "";
    const UNIT: &'static str = "";
    const MIN_VALUE: i32 = 0;
    const MAX_VALUE: i32;
    const STEP: i32 = 1;
}

/// Presentation data of a boolean parameter.
pub trait BooleanParameter: Copy + Default {
    const LABEL: &'static str;
    const DESCRIPTION: &'static str = "";
    const UNIT: &'static str = "";
}

/// Presentation data of an enumerated parameter.
pub trait EnumParameter: Copy + Default + 'static {
    const LABEL: &'static str;
    const DESCRIPTION: &'static str = "";
    const UNIT: &'static str = "";
}

// Harmonics parameters

/// Number of harmonics (overtones) mixed in above the fundamental.
#[derive(Clone, Copy, Default)]
pub struct Harmonics(pub i32);

impl IntegerParameter for Harmonics {
    const LABEL: &'static str = "Harmonics";
    const DESCRIPTION: &'static str = "Number of harmonics (overtones) to add. Generates the same sound at several multiples of the base frequency (2×, 3×, …), and mixes them with the original sound. Note that this slows down rendering quite a lot, so you may want to leave it at 0 until the last moment.";
    const MIN_VALUE: i32 = 0;
    const MAX_VALUE: i32 = 5;
    const STEP: i32 = 1;
}

impl Harmonics {
    /// Number of oscillators the generator runs: one for each harmonic index
    /// from the fundamental (index 0) up to this count, none when the count
    /// is negative.
    pub fn oscillator_count(&self) -> (r: usize)
        ensures
            r == if self.0 < 0 { 0 } else { self.0 + 1 },
    {
        if self.0 < 0 {
            0
        } else {
            self.0 as usize + 1
        }
    }
}

// Tone parameters

/// Shape of the waveform of each oscillator.
#[derive(Clone, Copy, Debug, PartialEq, Eq, Structural)]
pub enum Waveform {
    Sine,
    Triangle,
    Sawtooth,
    Square,
    Tangent,
    Whistle,
    Breaker,
    Whitenoise,
    Pinknoise,
    Brownnoise,
}

impl Default for Waveform {
    fn default() -> (r: Self)
        ensures
            r == Waveform::Sine,
    {
        Waveform::Sine
    }
}

/// Every waveform, in the order a chooser lists them.
pub const WAVEFORMS: [Waveform; 10] = [
    Waveform::Sine,
    Waveform::Triangle,
    Waveform::Sawtooth,
    Waveform::Square,
    Waveform::Tangent,
    Waveform::Whistle,
    Waveform::Breaker,
    Waveform::Whitenoise,
    Waveform::Pinknoise,
    Waveform::Brownnoise,
];

impl EnumParameter for Waveform {
    const LABEL: &'static str = "Waveform";
    const DESCRIPTION: &'static str = "Shape of the waveform. This is the most important factor in determining the character, or timbre, of the sound.";
}

/// Whether noise waveforms blend linearly between consecutive draws.
#[derive(Clone, Copy)]
pub struct InterpolateNoise(pub bool);

impl Default for InterpolateNoise {
    fn default() -> (r: Self)
        ensures
            r.0,
    {
        Self(true)
    }
}

impl BooleanParameter for InterpolateNoise {
    const LABEL: &'static str = "Interpolate noise";
    const DESCRIPTION: &'static str = "Whether to use linear interpolation between individual samples of noise. This results in a smoother sound.";
}

// Filter parameters

/// Bits per sample kept by the bit-crush stage; 0 (with a zero sweep)
/// switches the stage off.
#[derive(Clone, Copy)]
pub struct BitCrush(pub i32);

impl Default for BitCrush {
    fn default() -> (r: Self)
        ensures
            r.0 == 16,
    {
        Self(16)
    }
}

impl IntegerParameter for BitCrush {
    const LABEL: &'static str = "Bit crush";
    const DESCRIPTION: &'static str = "Number of bits per sample. Reduces the number of bits in each sample by this amount, and then increase it again. The result is a lower-fidelity sound effect.";
    const UNIT: &'static str = "bits";
    const MIN_VALUE: i32 = 1;
    const MAX_VALUE: i32 = 16;
    const STEP: i32 = 1;
}

/// Change of the bit-crush depth over the course of the sound.
#[derive(Clone, Copy, Default)]
pub struct BitCrushSweep(pub i32);

impl IntegerParameter for BitCrushSweep {
    const LABEL: &'static str = "Bit crush sweep";
    const DESCRIPTION: &'static str = "Amount by which to change the bit crush value linearly over the course of the sound.";
    const UNIT: &'static str = "bits";
    const MIN_VALUE: i32 = -16;
    const MAX_VALUE: i32 = 16;
    const STEP: i32 = 1;
}

// Output parameters

/// Whether the finished sound is rescaled so that its peak is at full scale.
#[derive(Clone, Copy)]
pub struct Normalization(pub bool);

impl Default for Normalization {
    fn default() -> (r: Self)
        ensures
            r.0,
    {
        Self(true)
    }
}

impl BooleanParameter for Normalization {
    const LABEL: &'static str = "Normalization";
    const DESCRIPTION: &'static str = "Whether to adjust the volume of the sound so that the peak volume is at 100%.";
}

} // verus!
