//! Identifiers, constants, colours and the protocol error type of the
//! Maschine Mk3 wire format.
use vstd::prelude::*;

verus! {

/// Native Instruments USB vendor id.
pub const VID_NI: u16 = 0x17cc;
/// Maschine Mk3 USB product id.
pub const PID_MK3: u16 = 0x1600;

/// HID interface (controls + LEDs).
pub const IFACE_HID: u8 = 4;
/// Vendor-defined bulk interface (displays).
pub const IFACE_DISPLAY: u8 = 5;
/// Bulk OUT endpoint used for display pixel writes.
pub const EP_DISPLAY_OUT: u8 = 0x04;

/// Incoming HID report: buttons, encoders, touch strip and analog knobs.
pub const REPORT_IN_CONTROLS: u8 = 0x01;
/// Incoming HID report: pad pressure stream.
pub const REPORT_IN_PADS: u8 = 0x02;
/// Outgoing HID report: button/encoder LED values.
pub const REPORT_OUT_BUTTON_LEDS: u8 = 0x80;
/// Outgoing HID report: pad RGB and touch strip LEDs.
pub const REPORT_OUT_PAD_LEDS: u8 = 0x81;

/// Pad identifier (0..16).
pub type Pad = u8;
/// Number of RGB pads.
pub const PAD_COUNT: usize = 16;
/// Number of RGB LEDs on the touch strip.
pub const TOUCHSTRIP_LED_COUNT: usize = 25;
/// Number of macro encoders under the displays.
pub const MACRO_ENCODER_COUNT: usize = 8;

/// Which of the two colour displays.
#[derive(Debug, Clone, Copy, PartialEq, Eq, Hash, Structural)]
pub enum DisplayId {
    Left,
    Right,
}

/// Width of a display in pixels.
pub const DISPLAY_WIDTH: u16 = 480;
/// Height of a display in pixels.
pub const DISPLAY_HEIGHT: u16 = 272;
/// Pixels on one display.
pub const DISPLAY_PIXEL_COUNT: usize = 130560;

impl DisplayId {
    /// The number the device uses for this display on the wire.
    pub open spec fn spec_wire_id(self) -> u8 {
        match self {
            DisplayId::Left => 0,
            DisplayId::Right => 1,
        }
    }

    /// The number the device uses for this display on the wire.
    pub fn wire_id(self) -> (id: u8)
        ensures
            id == self.spec_wire_id(),
    {
        match self {
            DisplayId::Left => 0,
            DisplayId::Right => 1,
        }
    }
}

/// Logical button identifiers.
#[derive(Debug, Clone, Copy, PartialEq, Eq, Hash, Structural)]
pub enum Button {
    Play,
    Rec,
    Stop,
    Restart,
    Erase,
    Tap,
    Follow,
    Shift,
    Fixed,
    Pad,
    Scene,
    Pattern,
    Events,
    Variation,
    Duplicate,
    Select,
    Solo,
    Mute,
    Group(u8),
    Pitch,
    Mod,
    Perform,
    Notes,
    Browser,
    Plugin,
    Mixer,
    Channel,
    Arranger,
    Sampling,
    MacroSet,
    Volume,
    Swing,
    Tempo,
    DisplayButton(u8),
    TouchStripTouch,
    EncoderPush(u8),
    EncoderTouch(u8),
    MasterEncoderPush,
    MasterEncoderTouch,
    Auto,
    Lock,
    NoteRepeat,
    Left,
    Right,
}

/// Identifier for a macro encoder (the knobs beneath the displays).
#[derive(Debug, Clone, Copy, PartialEq, Eq, Hash, Structural)]
pub struct MacroEncoder(pub u8);

/// Identifier for the single large master encoder.
#[derive(Debug, Clone, Copy, PartialEq, Eq, Hash, Structural)]
pub struct MasterEncoder;

/// RGB colour as 8-bit components.
#[derive(Debug, Clone, Copy, PartialEq, Eq, Hash, Structural)]
pub struct Rgb {
    pub r: u8,
    pub g: u8,
    pub b: u8,
}

/// The packed RGB565 word of a colour: five bits of red, six of green,
/// five of blue, red in the top bits.
pub open spec fn rgb565(c: Rgb) -> u16 {
    ((c.r / 8) * 2048 + (c.g / 4) * 32 + c.b / 8) as u16
}

impl Rgb {
    /// All components off.
    pub fn black() -> (c: Rgb)
        ensures
            c == (Rgb { r: 0, g: 0, b: 0 }),
    {
        Rgb { r: 0, g: 0, b: 0 }
    }

    /// All components at full intensity.
    pub fn white() -> (c: Rgb)
        ensures
            c == (Rgb { r: 0xff, g: 0xff, b: 0xff }),
    {
        Rgb { r: 0xff, g: 0xff, b: 0xff }
    }

    pub fn new(r: u8, g: u8, b: u8) -> (c: Rgb)
        ensures
            c == (Rgb { r, g, b }),
    {
        Rgb { r, g, b }
    }

    /// Packs the colour into the RGB565 word the displays use.
    pub fn to_rgb565(self) -> (w: u16)
        ensures
            w == rgb565(self),
            w as int == (self.r / 8) * 2048 + (self.g / 4) * 32 + self.b / 8,
    {
        let r = (self.r as u16 >> 3) & 0x1f;
        let g = (self.g as u16 >> 2) & 0x3f;
        let b = (self.b as u16 >> 3) & 0x1f;
        let w = (r << 11) | (g << 5) | b;
        let (rr, gg, bb) = (self.r, self.g, self.b);
        assert(w == ((rr / 8) as u16) * 2048 + ((gg / 4) as u16) * 32 + (bb / 8) as u16) by (bit_vector)
            requires
                r == (rr as u16 >> 3) & 0x1f,
                g == (gg as u16 >> 2) & 0x3f,
                b == (bb as u16 >> 3) & 0x1f,
                w == (r << 11) | (g << 5) | b,
        ;
        w
    }
}

impl Default for Rgb {
    fn default() -> (c: Rgb)
        ensures
            c == (Rgb { r: 0, g: 0, b: 0 }),
    {
        Rgb { r: 0, g: 0, b: 0 }
    }
}

/// Errors raised by protocol parsers and encoders.
#[derive(Debug, Clone, Copy, PartialEq, Eq, Structural)]
pub enum ProtoError {
    /// Input too short: `need` bytes were needed, `have` were given.
    Short { need: usize, have: usize },
    /// The report id is not one the device sends.
    UnknownReport(u8),
    /// A pad index outside 0..16.
    BadPad(u8),
    /// An encoder index outside 0..8.
    BadEncoder(u8),
    /// The output buffer is too small.
    OutputTooSmall { need: usize, have: usize },
}

} // verus!
