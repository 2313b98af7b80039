use jfxr::parameter::{
    BitCrush, BitCrushSweep, BooleanParameter, EnumParameter, Harmonics, IntegerParameter,
    InterpolateNoise, Normalization, Waveform, WAVEFORMS,
};

#[test]
fn parameter_defaults() {
    assert_eq!(BitCrush::default().0, 16);
    assert_eq!(BitCrushSweep::default().0, 0);
    assert_eq!(Harmonics::default().0, 0);
    assert!(InterpolateNoise::default().0);
    assert!(Normalization::default().0);
    assert_eq!(Waveform::default(), Waveform::Sine);
}

#[test]
fn parameter_metadata() {
    assert_eq!(Harmonics::LABEL, "Harmonics");
    assert_eq!(Harmonics::MIN_VALUE, 0);
    assert_eq!(Harmonics::MAX_VALUE, 5);
    assert_eq!(BitCrush::UNIT, "bits");
    assert_eq!(BitCrushSweep::MIN_VALUE, -16);
    assert_eq!(Normalization::UNIT, "");
    assert_eq!(Waveform::LABEL, "Waveform");
    assert_eq!(WAVEFORMS.len(), 10);
    assert_eq!(WAVEFORMS[0], Waveform::Sine);
    assert_eq!(WAVEFORMS[9], Waveform::Brownnoise);
}

#[test]
fn harmonics_zero_is_one_oscillator() {
    assert_eq!(Harmonics(0).oscillator_count(), 1);
}

#[test]
fn harmonics_oscillator_counts() {
    assert_eq!(Harmonics(5).oscillator_count(), 6);
    assert_eq!(Harmonics(-1).oscillator_count(), 0);
    assert_eq!(Harmonics(i32::MAX).oscillator_count(), 1usize << 31);
}
