//! Pin types, pin modes and registered pins.

use vstd::prelude::*;

verus! {

/// How a pin is sampled, sent as `t` in a `gpio-state` frame.
#[derive(Debug, Clone, Copy, PartialEq, Eq, Structural)]
pub enum PinType {
    /// A plain digital I/O pin.
    Digital,
    /// A PWM (LEDC) output pin.
    Pwm,
    /// An analog (ADC) input pin.
    Analog,
}

impl PinType {
    /// The number sent for the type.
    pub open spec fn spec_to_int(self) -> u8 {
        match self {
            PinType::Digital => 0,
            PinType::Pwm => 1,
            PinType::Analog => 2,
        }
    }

    /// The number sent for the type (`t`).
    pub fn to_int(self) -> (r: u8)
        ensures
            r == self.spec_to_int(),
    {
        match self {
            PinType::Digital => 0,
            PinType::Pwm => 1,
            PinType::Analog => 2,
        }
    }
}

/// Arduino pin modes, as served at `/pinmodes`.
#[derive(Debug, Clone, Copy, PartialEq, Eq, Structural)]
pub enum PinMode {
    /// `INPUT`.
    Input,
    /// `OUTPUT`.
    Output,
    /// `INPUT_PULLUP`.
    InputPullup,
    /// `INPUT_PULLDOWN`.
    InputPulldown,
    /// `OUTPUT_OPEN_DRAIN`.
    OutputOpenDrain,
    /// `ANALOG`.
    Analog,
}

impl PinMode {
    /// The mode number of the Arduino-ESP32 core (`esp32-hal-gpio.h`).
    pub open spec fn spec_to_int(self) -> u32 {
        match self {
            PinMode::Input => 0x01,
            PinMode::Output => 0x03,
            PinMode::InputPullup => 0x05,
            PinMode::InputPulldown => 0x09,
            PinMode::OutputOpenDrain => 0x13,
            PinMode::Analog => 0xC0,
        }
    }

    /// The mode number of the Arduino-ESP32 core.
    pub fn to_int(self) -> (r: u32)
        ensures
            r == self.spec_to_int(),
    {
        match self {
            PinMode::Input => 0x01,
            PinMode::Output => 0x03,
            PinMode::InputPullup => 0x05,
            PinMode::InputPulldown => 0x09,
            PinMode::OutputOpenDrain => 0x13,
            PinMode::Analog => 0xC0,
        }
    }
}

/// A pin registered with the viewer.
#[derive(Debug, Clone, Copy, PartialEq, Eq)]
pub struct RegisteredPin {
    /// GPIO number.
    pub pin: u8,
    /// Arduino mode reported at `/pinmodes`.
    pub mode: PinMode,
    /// How the value of this pin is sampled and reported.
    pub pin_type: PinType,
    /// LEDC channel of a PWM pin. A PWM pin without one reads as duty zero.
    pub pwm_channel: Option<u8>,
    /// LEDC timer resolution of a PWM pin, in bits. A PWM pin without one reads as scaled zero.
    pub pwm_resolution_bits: Option<u8>,
}

} // verus!
