//! What the supported chips can do: usable GPIO numbers, ADC and touch pins, radio features.

use vstd::prelude::*;

verus! {

/// ESP32 pins with an ADC channel (ADC1 channels 0 to 7, ADC2 channels 0 to 9).
pub const ESP32_ADC_PINS: [u8; 18] = [
    0, 2, 4, 12, 13, 14, 15, 25, 26, 27, 32, 33, 34, 35, 36, 37, 38, 39,
];

/// ESP32 pins with a touch sensor (T0 to T9).
pub const ESP32_TOUCH_PINS: [u8; 10] = [0, 2, 4, 12, 13, 14, 15, 27, 32, 33];

/// ESP32-S3 pins with an ADC channel (ADC1 and ADC2, ten channels each).
pub const ESP32S3_ADC_PINS: [u8; 20] = [
    1, 2, 3, 4, 5, 6, 7, 8, 9, 10, 11, 12, 13, 14, 15, 16, 17, 18, 19, 20,
];

/// ESP32-S3 pins with a touch sensor (T1 to T14).
pub const ESP32S3_TOUCH_PINS: [u8; 14] = [1, 2, 3, 4, 5, 6, 7, 8, 9, 10, 11, 12, 13, 14];

/// The chip the firmware runs on.
#[derive(Debug, Clone, Copy, PartialEq, Eq, Structural)]
pub enum Chip {
    /// No chip: a build for a host machine. It has no registers to read, and reports the pin
    /// capabilities of the ESP32.
    Host,
    /// The classic ESP32.
    Esp32,
    /// The ESP32-S3.
    Esp32S3,
}

impl Chip {
    /// The highest GPIO number of the chip, plus one.
    pub open spec fn spec_max_gpio_pins(self) -> u8 {
        match self {
            Chip::Host => 49,
            Chip::Esp32 => 40,
            Chip::Esp32S3 => 49,
        }
    }

    /// The highest GPIO number of the chip, plus one.
    pub fn max_gpio_pins(self) -> (r: u8)
        ensures
            r == self.spec_max_gpio_pins(),
    {
        match self {
            Chip::Host => 49,
            Chip::Esp32 => 40,
            Chip::Esp32S3 => 49,
        }
    }

    /// The pins with an ADC channel.
    pub open spec fn spec_adc_pins(self) -> Seq<u8> {
        match self {
            Chip::Esp32S3 => ESP32S3_ADC_PINS@,
            Chip::Host | Chip::Esp32 => ESP32_ADC_PINS@,
        }
    }

    /// The pins with an ADC channel.
    pub fn adc_pins(self) -> (r: &'static [u8])
        ensures
            r@ == self.spec_adc_pins(),
    {
        match self {
            Chip::Esp32S3 => &ESP32S3_ADC_PINS,
            Chip::Host | Chip::Esp32 => &ESP32_ADC_PINS,
        }
    }

    /// The pins with a touch sensor.
    pub open spec fn spec_touch_pins(self) -> Seq<u8> {
        match self {
            Chip::Esp32S3 => ESP32S3_TOUCH_PINS@,
            Chip::Host | Chip::Esp32 => ESP32_TOUCH_PINS@,
        }
    }

    /// The pins with a touch sensor.
    pub fn touch_pins(self) -> (r: &'static [u8])
        ensures
            r@ == self.spec_touch_pins(),
    {
        match self {
            Chip::Esp32S3 => &ESP32S3_TOUCH_PINS,
            Chip::Host | Chip::Esp32 => &ESP32_TOUCH_PINS,
        }
    }

    /// The name of the chip.
    pub open spec fn spec_model(self) -> Seq<char> {
        match self {
            Chip::Host => "unknown"@,
            Chip::Esp32 => "ESP32"@,
            Chip::Esp32S3 => "ESP32-S3"@,
        }
    }

    /// The name of the chip.
    pub fn model(self) -> (r: &'static str)
        ensures
            r@ == self.spec_model(),
    {
        match self {
            Chip::Host => "unknown",
            Chip::Esp32 => "ESP32",
            Chip::Esp32S3 => "ESP32-S3",
        }
    }

    /// Number of processor cores.
    pub open spec fn spec_cores(self) -> u32 {
        match self {
            Chip::Host => 0,
            Chip::Esp32 | Chip::Esp32S3 => 2,
        }
    }

    /// Number of processor cores.
    pub fn cores(self) -> (r: u32)
        ensures
            r == self.spec_cores(),
    {
        match self {
            Chip::Host => 0,
            Chip::Esp32 | Chip::Esp32S3 => 2,
        }
    }

    /// The names of the radio features.
    pub open spec fn spec_features(self) -> Seq<Seq<char>> {
        match self {
            Chip::Host => seq![],
            Chip::Esp32 => seq!["WiFi"@, "BLE"@, "BT"@],
            Chip::Esp32S3 => seq!["WiFi"@, "BLE"@],
        }
    }

    /// The names of the radio features.
    pub fn features(self) -> (r: &'static [&'static str])
        ensures
            r@.map_values(|name: &str| name@) == self.spec_features(),
    {
        match self {
            Chip::Host => &[],
            Chip::Esp32 => &["WiFi", "BLE", "BT"],
            Chip::Esp32S3 => &["WiFi", "BLE"],
        }
    }
}

/// Whether each number of the list is greater than those in front of it.
pub open spec fn strictly_ascending(pins: Seq<u8>) -> bool {
    forall|i: int, j: int| 0 <= i < j < pins.len() ==> pins[i] < pins[j]
}

/// The pin lists are in ascending order without repetition, and name only pins of the chip.
pub proof fn pin_lists_are_ascending(chip: Chip)
    ensures
        strictly_ascending(chip.spec_adc_pins()),
        strictly_ascending(chip.spec_touch_pins()),
        forall|i: int|
            0 <= i < chip.spec_adc_pins().len() ==> chip.spec_adc_pins()[i]
                < chip.spec_max_gpio_pins(),
        forall|i: int|
            0 <= i < chip.spec_touch_pins().len() ==> chip.spec_touch_pins()[i]
                < chip.spec_max_gpio_pins(),
{
}

} // verus!
