//! The device event model.
use vstd::prelude::*;
use crate::proto::hid_in::InReport;

verus! {

/// Lifecycle phase of a pad press.
#[derive(Debug, Clone, Copy, PartialEq, Eq, Structural)]
pub enum PadPhase {
    /// First frame crossing the on-threshold; carries a velocity.
    Attack,
    /// Pressure change while held (jitter-filtered).
    Pressure,
    /// Crossed back below the off-threshold.
    Release,
}

/// One of the three analog knobs.
#[derive(Debug, Clone, Copy, PartialEq, Eq, Structural)]
pub enum AnalogKnob {
    MicGain,
    Headphones,
    MasterVolume,
}

/// An input event derived from the HID reports.
#[derive(Debug, Clone, PartialEq)]
pub enum Event {
    Pad { pad: u8, pressure: u16, velocity: Option<u8>, phase: PadPhase },
    Button { bit: u8, pressed: bool },
    MacroEncoder { index: u8, delta: i16, absolute: u16 },
    MasterEncoder { delta: i16, absolute: u16 },
    TouchStrip { position: u16, pressure: u16 },
    TouchStripReleased,
    Analog { which: AnalogKnob, value: u16 },
    Raw(InReport),
}

} // verus!
