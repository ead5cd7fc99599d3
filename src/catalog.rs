//! The LED-configuration command: its instruction code, its payload layout
//! and the codes of its light patterns and colors.

use vstd::prelude::*;
use crate::frame::{encode_fixed, frame_of, identifier_code, Identifier};

verus! {

/// Instruction code of the LED-configuration command.
pub const AURA_LED_CONFIG: u8 = 0x35;

/// Light pattern of the LED.
#[derive(Clone, Copy, Debug, PartialEq, Eq, Structural)]
pub enum LightPattern {
    Breathing,
    Flashing,
    AlwaysOn,
    AlwaysOff,
    GraduallyOn,
    GraduallyOff,
}

pub open spec fn pattern_code(p: LightPattern) -> u8 {
    match p {
        LightPattern::Breathing => 0x01,
        LightPattern::Flashing => 0x02,
        LightPattern::AlwaysOn => 0x03,
        LightPattern::AlwaysOff => 0x04,
        LightPattern::GraduallyOn => 0x05,
        LightPattern::GraduallyOff => 0x06,
    }
}

impl LightPattern {
    pub fn code(&self) -> (r: u8)
        ensures
            r == pattern_code(*self),
    {
        match self {
            LightPattern::Breathing => 0x01,
            LightPattern::Flashing => 0x02,
            LightPattern::AlwaysOn => 0x03,
            LightPattern::AlwaysOff => 0x04,
            LightPattern::GraduallyOn => 0x05,
            LightPattern::GraduallyOff => 0x06,
        }
    }
}

/// Color of the LED.
#[derive(Clone, Copy, Debug, PartialEq, Eq, Structural)]
pub enum Color {
    Red,
    Blue,
    Purple,
    Green,
    Yellow,
    Cyan,
    White,
}

pub open spec fn color_code(c: Color) -> u8 {
    match c {
        Color::Red => 0x01,
        Color::Blue => 0x02,
        Color::Purple => 0x03,
        Color::Green => 0x04,
        Color::Yellow => 0x05,
        Color::Cyan => 0x06,
        Color::White => 0x07,
    }
}

impl Color {
    pub fn code(&self) -> (r: u8)
        ensures
            r == color_code(*self),
    {
        match self {
            Color::Red => 0x01,
            Color::Blue => 0x02,
            Color::Purple => 0x03,
            Color::Green => 0x04,
            Color::Yellow => 0x05,
            Color::Cyan => 0x06,
            Color::White => 0x07,
        }
    }
}

/// Parameters of one LED-configuration command. `speed` runs from 0
/// (fastest) to 255 (slowest); a `cycles` of 0 repeats without end.
#[derive(Clone, Copy, Debug, PartialEq, Eq, Structural)]
pub struct LedConfig {
    pub pattern: LightPattern,
    pub speed: u8,
    pub color: Color,
    pub cycles: u8,
}

/// Payload of the LED-configuration command: pattern, speed, color, cycles.
pub open spec fn led_payload(c: LedConfig) -> Seq<u8> {
    seq![pattern_code(c.pattern), c.speed, color_code(c.color), c.cycles]
}

/// The command frame that sends `c` to the module.
pub open spec fn led_frame(c: LedConfig) -> Seq<u8> {
    frame_of(identifier_code(Identifier::Command), AURA_LED_CONFIG, led_payload(c))
}

impl LedConfig {
    pub fn new(pattern: LightPattern, speed: u8, color: Color, cycles: u8) -> (r: LedConfig)
        ensures
            r == (LedConfig { pattern, speed, color, cycles }),
    {
        LedConfig { pattern, speed, color, cycles }
    }

    /// The 4-byte payload of this command.
    pub fn payload(&self) -> (r: Vec<u8>)
        ensures
            r@ == led_payload(*self),
    {
        let mut v: Vec<u8> = Vec::new();
        v.push(self.pattern.code());
        v.push(self.speed);
        v.push(self.color.code());
        v.push(self.cycles);
        assert(v@ =~= led_payload(*self));
        v
    }

    /// The command frame for this configuration, in the fixed
    /// `LED_FRAME_LEN`-byte buffer of the transport.
    pub fn frame(&self) -> (r: [u8; 16])
        ensures
            r@ == led_frame(*self),
    {
        let payload = self.payload();
        match encode_fixed(Identifier::Command, AURA_LED_CONFIG, payload.as_slice()) {
            Ok(f) => f,
            Err(_) => {
                proof {
                    assert(false);
                }
                [0u8; 16]
            },
        }
    }
}

} // verus!
