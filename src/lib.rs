//! Procedural sound-effect synthesis: the integer and control logic of the
//! engine, verified.

pub mod oscillator;
pub mod parameter;
pub mod synth;
pub mod jfxr;
