//! Reading registered pins.
//!
//! The viewer watches pins that the application owns and drives. Digital levels and PWM duties
//! are therefore taken from the input and duty registers of the chip, without owning the pin or
//! the channel; which register is read, and what its value means, is decided here. ADC pins
//! cannot be read that way, so their samples come from a function of the firmware.

use crate::capabilities::Chip;
use crate::pin::{PinType, RegisteredPin};
use crate::value;
use crate::value::PinReading;
use vstd::prelude::*;

verus! {

/// A register that shows the state of pins.
#[derive(Debug, Clone, Copy, PartialEq, Eq, Structural)]
pub enum Register {
    /// The input levels of GPIO 0 to 31, one bit each.
    GpioIn,
    /// The input levels from GPIO 32 on, one bit each.
    GpioIn1,
    /// The current duty of a high-speed LEDC channel of the ESP32 (0 to 7).
    LedcHighSpeed(u8),
    /// The current duty of a low-speed LEDC channel of the ESP32 (0 to 7).
    LedcLowSpeed(u8),
    /// The current duty of an LEDC channel of the ESP32-S3 (0 to 7).
    LedcChannel(u8),
}

/// The register that shows the level of a GPIO, if the chip has that GPIO.
pub open spec fn level_register(chip: Chip, pin: u8) -> Option<Register> {
    if chip == Chip::Host || pin >= chip.spec_max_gpio_pins() {
        None
    } else if pin < 32 {
        Some(Register::GpioIn)
    } else {
        Some(Register::GpioIn1)
    }
}

/// The register that shows the duty of an LEDC channel, if the chip has that channel.
pub open spec fn duty_register(chip: Chip, channel: u8) -> Option<Register> {
    match chip {
        Chip::Host => None,
        Chip::Esp32 => if channel < 8 {
            Some(Register::LedcHighSpeed(channel))
        } else if channel < 16 {
            Some(Register::LedcLowSpeed((channel - 8) as u8))
        } else {
            None
        },
        Chip::Esp32S3 => if channel < 8 {
            Some(Register::LedcChannel(channel))
        } else {
            None
        },
    }
}

/// The register that shows the state of a registered pin, if there is one.
pub open spec fn pin_register(chip: Chip, registered: RegisteredPin) -> Option<Register> {
    match registered.pin_type {
        PinType::Digital => level_register(chip, registered.pin),
        PinType::Pwm => match registered.pwm_channel {
            Some(channel) => duty_register(chip, channel),
            None => None,
        },
        PinType::Analog => None,
    }
}

/// The bit of an input register that belongs to a GPIO.
pub open spec fn level_bit(register_value: u32, pin: u8) -> bool {
    register_value & (1u32 << (pin % 32)) != 0
}

/// The duty that a duty register shows: its four lowest bits are fractional.
pub open spec fn shown_duty(register_value: u32) -> u32 {
    register_value >> 4
}

/// The highest duty at a resolution: all of its bits set, of at most 32.
pub open spec fn max_duty(resolution_bits: u8) -> nat {
    (vstd::arithmetic::power2::pow2(if resolution_bits < 32 {
        resolution_bits as nat
    } else {
        32
    }) - 1) as nat
}

/// The reading of a pin, given the value of its register and its sample, where there are any.
///
/// A pin without a register reads as low or as duty zero, and a pin without a sample as zero.
pub open spec fn pin_reading(
    registered: RegisteredPin,
    register_value: Option<u32>,
    sample: Option<u16>,
) -> PinReading {
    match registered.pin_type {
        PinType::Digital => value::digital_reading(
            register_value matches Some(bits) && level_bit(bits, registered.pin),
        ),
        PinType::Pwm => value::pwm_reading(
            match register_value {
                Some(bits) => shown_duty(bits),
                None => 0,
            },
            match registered.pwm_resolution_bits {
                Some(resolution_bits) => max_duty(resolution_bits) as u32,
                None => 0,
            },
        ),
        PinType::Analog => value::analog_reading(
            match sample {
                Some(sample) => sample as u32,
                None => 0,
            },
        ),
    }
}

/// Whether `reading` is one that a registered pin can show now: its register and its sample, if
/// it has them, are results of `read_register` and of the analog source.
pub open spec fn shows<R: Fn(Register) -> u32, A: Fn(u8) -> u16>(
    chip: Chip,
    registered: RegisteredPin,
    read_register: R,
    analog_source: Option<A>,
    reading: PinReading,
) -> bool {
    exists|register_value: Option<u32>, sample: Option<u16>|
        {
            &&& #[trigger] pin_reading(registered, register_value, sample) == reading
            &&& register_value is Some <==> pin_register(chip, registered) is Some
            &&& register_value matches Some(bits) ==> call_ensures(
                read_register,
                (pin_register(chip, registered)->0,),
                bits,
            )
            &&& sample is Some <==> registered.pin_type == PinType::Analog && analog_source is Some
            &&& sample matches Some(sample) ==> call_ensures(
                analog_source->0,
                (registered.pin,),
                sample,
            )
        }
}

/// Whether `reading` is one that a registered pin can show where there is no chip.
pub open spec fn shows_without_chip<A: Fn(u8) -> u16>(
    registered: RegisteredPin,
    analog_source: Option<A>,
    reading: PinReading,
) -> bool {
    if registered.pin_type == PinType::Analog && analog_source is Some {
        exists|sample: u16|
            {
                &&& #[trigger] call_ensures(analog_source->0, (registered.pin,), sample)
                &&& reading == pin_reading(registered, None, Some(sample))
            }
    } else {
        reading == pin_reading(registered, None, None)
    }
}

/// The register that shows the state of a registered pin, if there is one.
pub fn register_of(chip: Chip, registered: &RegisteredPin) -> (r: Option<Register>)
    ensures
        r == pin_register(chip, *registered),
{
    match registered.pin_type {
        PinType::Digital => {
            if matches!(chip, Chip::Host) || registered.pin >= chip.max_gpio_pins() {
                None
            } else if registered.pin < 32 {
                Some(Register::GpioIn)
            } else {
                Some(Register::GpioIn1)
            }
        },
        PinType::Pwm => match registered.pwm_channel {
            Some(channel) => ledc_register(chip, channel),
            None => None,
        },
        PinType::Analog => None,
    }
}

/// The register that shows the duty of an LEDC channel, if the chip has that channel.
fn ledc_register(chip: Chip, channel: u8) -> (r: Option<Register>)
    ensures
        r == duty_register(chip, channel),
{
    match chip {
        Chip::Host => None,
        Chip::Esp32 => {
            if channel < 8 {
                Some(Register::LedcHighSpeed(channel))
            } else if channel < 16 {
                Some(Register::LedcLowSpeed(channel - 8))
            } else {
                None
            }
        },
        Chip::Esp32S3 => {
            if channel < 8 {
                Some(Register::LedcChannel(channel))
            } else {
                None
            }
        },
    }
}

/// The highest duty at a resolution.
fn max_duty_at(resolution_bits: u8) -> (r: u32)
    ensures
        r == max_duty(resolution_bits),
{
    proof {
        vstd::arithmetic::power2::lemma2_to64();
    }
    if resolution_bits >= 32 {
        return u32::MAX;
    }
    proof {
        vstd::arithmetic::power2::lemma_pow2_strictly_increases(resolution_bits as nat, 32);
        vstd::bits::lemma_u64_shl_is_mul(1, resolution_bits as u64);
        vstd::arithmetic::power2::lemma_pow2_pos(resolution_bits as nat);
    }
    ((1u64 << (resolution_bits as u64)) - 1) as u32
}

/// What a registered pin shows, given the value of its register and its sample, where there are
/// any.
pub fn interpret(
    registered: &RegisteredPin,
    register_value: Option<u32>,
    sample: Option<u16>,
) -> (r: PinReading)
    ensures
        r == pin_reading(*registered, register_value, sample),
{
    match registered.pin_type {
        PinType::Digital => PinReading::digital(
            match register_value {
                Some(bits) => bits & (1u32 << (registered.pin % 32)) != 0,
                None => false,
            },
        ),
        PinType::Pwm => {
            let duty: u32 = match register_value {
                Some(bits) => bits >> 4,
                None => 0,
            };
            let max_duty: u32 = match registered.pwm_resolution_bits {
                Some(resolution_bits) => max_duty_at(resolution_bits),
                None => 0,
            };
            PinReading::pwm(duty, max_duty)
        },
        PinType::Analog => PinReading::analog(
            match sample {
                Some(sample) => sample as u32,
                None => 0,
            },
        ),
    }
}

/// Read a registered pin of a chip.
///
/// `read_register` returns the value of a register. It is called for digital and PWM pins only,
/// and `analog_source` for analog pins only.
pub fn read_pin_of<R: Fn(Register) -> u32, A: Fn(u8) -> u16>(
    chip: Chip,
    registered: &RegisteredPin,
    read_register: &R,
    analog_source: &Option<A>,
) -> (r: PinReading)
    requires
        pin_register(chip, *registered) matches Some(register) ==> call_requires(
            *read_register,
            (register,),
        ),
        registered.pin_type == PinType::Analog ==> (*analog_source matches Some(source)
            ==> call_requires(source, (registered.pin,))),
    ensures
        shows(chip, *registered, *read_register, *analog_source, r),
{
    let register_value: Option<u32> = match register_of(chip, registered) {
        Some(register) => Some(read_register(register)),
        None => None,
    };
    let sample: Option<u16> = match registered.pin_type {
        PinType::Analog => match analog_source {
            Some(source) => Some(source(registered.pin)),
            None => None,
        },
        _ => None,
    };
    interpret(registered, register_value, sample)
}

/// Read a registered pin where there is no chip: digital pins are low, PWM duties zero, and
/// analog pins are read through `analog_source`.
pub fn read_pin<A: Fn(u8) -> u16>(registered: &RegisteredPin, analog_source: Option<A>) -> (r:
    PinReading)
    requires
        registered.pin_type == PinType::Analog ==> (analog_source matches Some(source)
            ==> call_requires(source, (registered.pin,))),
    ensures
        shows_without_chip(*registered, analog_source, r),
{
    let no_register = |_register: Register| -> (bits: u32) { 0 };
    read_pin_of(Chip::Host, registered, &no_register, &analog_source)
}

/// Every reading carries the type of its pin and a scaled value of at most 256, and its raw value
/// takes at most 28 bits.
pub proof fn readings_are_in_range(
    registered: RegisteredPin,
    register_value: Option<u32>,
    sample: Option<u16>,
)
    ensures
        pin_reading(registered, register_value, sample).pin_type == registered.pin_type,
        pin_reading(registered, register_value, sample).scaled <= 256,
        pin_reading(registered, register_value, sample).raw <= 0x0fff_ffff,
{
    if let Some(bits) = register_value {
        assert(bits >> 4 <= 0x0fff_ffff) by (bit_vector);
    }
    let duty: u32 = match register_value {
        Some(bits) => shown_duty(bits),
        None => 0,
    };
    let full_scale: u32 = match registered.pwm_resolution_bits {
        Some(resolution_bits) => max_duty(resolution_bits) as u32,
        None => 0,
    };
    let raw: u32 = match sample {
        Some(sample) => sample as u32,
        None => 0,
    };
    value::scaled_values_are_in_range(true, duty, full_scale);
    value::scaled_values_are_in_range(true, raw, 4095);
}

/// A digital pin that the chip does not have reads as low, and so does a PWM pin on a channel
/// that the chip does not have.
pub proof fn missing_pins_read_as_zero(chip: Chip, registered: RegisteredPin)
    requires
        registered.pin_type == PinType::Digital ==> registered.pin >= chip.spec_max_gpio_pins(),
        registered.pin_type == PinType::Pwm ==> (registered.pwm_channel matches Some(channel)
            ==> channel >= 16 || (chip == Chip::Esp32S3 && channel >= 8)),
    ensures
        pin_register(chip, registered) is None,
        pin_reading(registered, None, None).raw == 0,
        pin_reading(registered, None, None).scaled == 0,
{
    let full_scale: u32 = match registered.pwm_resolution_bits {
        Some(resolution_bits) => max_duty(resolution_bits) as u32,
        None => 0,
    };
    if full_scale > 0 {
        assert(0nat * 255 / (full_scale as nat) == 0) by (nonlinear_arith)
            requires
                full_scale > 0,
        ;
    }
}

} // verus!
