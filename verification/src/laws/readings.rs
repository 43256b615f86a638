//! What a reading shows of a pin.

use crate::capabilities::Chip;
use crate::pin::{PinType, RegisteredPin};
use crate::reader;
use crate::reader::Register;
use crate::value;
use crate::value::PinReading;
use vstd::prelude::*;

verus! {

/// The power of two with the given exponent.
pub open spec fn two_to(exponent: int) -> nat {
    vstd::arithmetic::power2::pow2(exponent as nat)
}

/// Whether `scaled` shows `raw` on a scale of 255 for `full_scale`: in proportion and rounded
/// down, 255 above full scale, and zero where there is no scale.
pub open spec fn in_proportion(scaled: int, raw: int, full_scale: int) -> bool {
    if full_scale == 0 {
        scaled == 0
    } else if raw > full_scale {
        scaled == 255
    } else {
        scaled * full_scale <= raw * 255 < (scaled + 1) * full_scale
    }
}

/// Scaling to 8 bits is proportional.
proof fn lemma_in_proportion(raw: nat, full_scale: nat)
    ensures
        in_proportion(
            value::scaled_to_8_bits(raw, full_scale) as int,
            raw as int,
            full_scale as int,
        ),
        value::scaled_to_8_bits(raw, full_scale) <= 255,
{
    let scaled = value::scaled_to_8_bits(raw, full_scale) as int;
    if full_scale > 0 {
        if raw >= full_scale {
            assert(raw == full_scale ==> 255 * full_scale <= raw * 255 < 256 * full_scale)
                by (nonlinear_arith)
                requires
                    full_scale > 0,
            ;
        } else {
            vstd::arithmetic::div_mod::lemma_fundamental_div_mod(
                (raw * 255) as int,
                full_scale as int,
            );
            assert(full_scale * scaled == scaled * full_scale) by (nonlinear_arith);
            assert((scaled + 1) * full_scale == scaled * full_scale + full_scale)
                by (nonlinear_arith);
            assert(scaled <= 255) by (nonlinear_arith)
                requires
                    scaled * full_scale <= raw * 255,
                    raw < full_scale,
                    full_scale > 0,
            ;
        }
    }
}

/// A digital reading is 1 and full for a high level, and zero for a low one.
pub proof fn digital_readings_show_the_level(high: bool, r: PinReading)
    requires
        call_ensures(PinReading::digital, (high,), r),
    ensures
        r.pin_type == PinType::Digital,
        r.raw == (if high {
            1int
        } else {
            0
        }),
        r.scaled == 256 * r.raw,
{
}

/// A PWM reading keeps the duty, and shows it in proportion to the highest duty.
pub proof fn pwm_readings_are_in_proportion(duty: u32, max_duty: u32, r: PinReading)
    requires
        call_ensures(PinReading::pwm, (duty, max_duty), r),
    ensures
        r.pin_type == PinType::Pwm,
        r.raw == duty,
        in_proportion(r.scaled as int, duty as int, max_duty as int),
{
    lemma_in_proportion(duty as nat, max_duty as nat);
}

/// An analog reading keeps the sample, and shows it in proportion to twelve bits.
pub proof fn analog_readings_are_in_proportion(raw: u32, r: PinReading)
    requires
        call_ensures(PinReading::analog, (raw,), r),
    ensures
        r.pin_type == PinType::Analog,
        r.raw == raw,
        in_proportion(r.scaled as int, raw as int, 4095),
{
    lemma_in_proportion(raw as nat, 4095);
}

/// A mapped value is as far into the output range as the value is into the input range, rounded
/// toward the low end of the output range.
pub proof fn mapping_is_proportional(
    value: i64,
    in_low: i64,
    in_high: i64,
    out_low: i64,
    out_high: i64,
    r: i64,
)
    requires
        call_ensures(value::map_value, (value, in_low, in_high, out_low, out_high), r),
    ensures
        in_high == in_low ==> r == out_low,
        in_high > in_low ==> ({
            let exact = (value - in_low) * (out_high - out_low);
            let reached = (r - out_low) * (in_high - in_low);
            &&& exact >= 0 ==> reached <= exact < reached + (in_high - in_low)
            &&& exact < 0 ==> reached - (in_high - in_low) < exact <= reached
        }),
        in_high < in_low ==> ({
            let exact = (value - in_low) * (out_high - out_low);
            let reached = (r - out_low) * (in_high - in_low);
            &&& exact >= 0 ==> reached <= exact < reached + (in_low - in_high)
            &&& exact < 0 ==> reached - (in_low - in_high) < exact <= reached
        }),
{
    if in_high != in_low {
        let exact = (value - in_low) * (out_high - out_low);
        let width = in_high - in_low;
        let quotient = value::truncated_quotient(exact, width);
        assert(r - out_low == quotient);
        if exact >= 0 {
            vstd::arithmetic::div_mod::lemma_fundamental_div_mod(exact, width);
            lemma_euclid(exact, width);
            assert(quotient * width == width * (exact / width)) by (nonlinear_arith)
                requires
                    quotient == exact / width,
            ;
        } else {
            lemma_euclid(-exact, width);
            assert(quotient * width == -(width * ((-exact) / width))) by (nonlinear_arith)
                requires
                    quotient == -((-exact) / width),
            ;
        }
    }
}

/// Division leaves a remainder below the size of the divisor.
proof fn lemma_euclid(number: int, divisor: int)
    requires
        divisor != 0,
    ensures
        number == divisor * (number / divisor) + number % divisor,
        0 <= number % divisor,
        divisor > 0 ==> number % divisor < divisor,
        divisor < 0 ==> number % divisor < -divisor,
{
    assert(number == divisor * (number / divisor) + number % divisor) by (nonlinear_arith)
        requires
            divisor != 0,
    ;
    assert(0 <= number % divisor && (divisor > 0 ==> number % divisor < divisor) && (divisor < 0
        ==> number % divisor < -divisor)) by (nonlinear_arith)
        requires
            divisor != 0,
    ;
}

/// The binary digit of a register for a GPIO, as a number.
pub open spec fn level_digit(register_value: u32, pin: u8) -> int {
    register_value as int / two_to(pin as int % 32) as int % 2
}

/// A bit is set if the binary digit of its weight is one.
proof fn lemma_level_digit(register_value: u32, pin: u8)
    ensures
        reader::level_bit(register_value, pin) <==> level_digit(register_value, pin) == 1,
        0 <= level_digit(register_value, pin) <= 1,
{
    let place: u32 = (pin % 32) as u32;
    vstd::bits::lemma_u32_shr_is_div(register_value, place);
    assert((register_value & (1u32 << place) != 0) <==> (register_value >> place) % 2 == 1)
        by (bit_vector)
        requires
            place < 32,
    ;
    assert(1u32 << (pin % 32) == 1u32 << place);
}

/// The register that shows a digital pin or the duty of a PWM pin, told by the numbers of the
/// pin and the channel.
pub open spec fn shown_by(chip: Chip, registered: RegisteredPin, register: Register) -> bool {
    let gpios = if chip == Chip::Esp32 {
        40int
    } else {
        49
    };
    match register {
        Register::GpioIn => registered.pin_type == PinType::Digital && registered.pin < gpios
            && registered.pin < 32,
        Register::GpioIn1 => registered.pin_type == PinType::Digital && 32 <= registered.pin
            < gpios,
        Register::LedcHighSpeed(index) => registered.pin_type == PinType::Pwm && chip
            == Chip::Esp32 && index < 8 && registered.pwm_channel == Some(index),
        Register::LedcLowSpeed(index) => registered.pin_type == PinType::Pwm && chip == Chip::Esp32
            && index < 8 && (registered.pwm_channel matches Some(channel) && channel == index + 8),
        Register::LedcChannel(index) => registered.pin_type == PinType::Pwm && chip
            == Chip::Esp32S3 && index < 8 && registered.pwm_channel == Some(index),
    }
}

/// The register of a pin is the one that shows it, and only a pin that no register shows has
/// none.
pub proof fn registers_show_their_pins(
    chip: Chip,
    registered: &RegisteredPin,
    r: Option<Register>,
)
    requires
        call_ensures(reader::register_of, (chip, registered), r),
    ensures
        chip == Chip::Host ==> r is None,
        chip != Chip::Host ==> (r matches Some(register) ==> shown_by(chip, *registered, register)),
        chip != Chip::Host && r is None ==> forall|register: Register|
            !shown_by(chip, *registered, register),
{
    if chip != Chip::Host && r is None {
        assert forall|register: Register| !shown_by(chip, *registered, register) by {
            match register {
                Register::GpioIn => {},
                Register::GpioIn1 => {},
                Register::LedcHighSpeed(_) => {},
                Register::LedcLowSpeed(_) => {},
                Register::LedcChannel(_) => {},
            }
        }
    }
}

/// The highest duty at a resolution in bits: one below the power of two, for up to 32 bits.
pub open spec fn full_duty(resolution_bits: Option<u8>) -> int {
    match resolution_bits {
        None => 0,
        Some(bits) => if bits <= 32 {
            two_to(bits as int) - 1
        } else {
            two_to(32) - 1
        },
    }
}

/// The highest duty fits into 32 bits.
proof fn lemma_full_duty(resolution_bits: Option<u8>)
    ensures
        0 <= full_duty(resolution_bits) <= u32::MAX,
        resolution_bits matches Some(bits) ==> full_duty(resolution_bits) == reader::max_duty(bits),
{
    vstd::arithmetic::power2::lemma2_to64();
    if let Some(bits) = resolution_bits {
        if bits < 32 {
            vstd::arithmetic::power2::lemma_pow2_strictly_increases(bits as nat, 32);
        }
        vstd::arithmetic::power2::lemma_pow2_pos(bits as nat);
    }
}

/// Whether a reading shows a pin whose register holds `register_value` and whose sample is
/// `sample`, where there are any.
pub open spec fn shows_values(
    registered: RegisteredPin,
    register_value: Option<u32>,
    sample: Option<u16>,
    r: PinReading,
) -> bool {
    &&& r.pin_type == registered.pin_type
    &&& registered.pin_type == PinType::Digital ==> {
        &&& r.raw == (match register_value {
            Some(bits) => level_digit(bits, registered.pin),
            None => 0,
        })
        &&& r.scaled == 256 * r.raw
    }
    &&& registered.pin_type == PinType::Pwm ==> {
        &&& r.raw == (match register_value {
            Some(bits) => bits as int / 16,
            None => 0,
        })
        &&& in_proportion(
            r.scaled as int,
            r.raw as int,
            full_duty(registered.pwm_resolution_bits),
        )
    }
    &&& registered.pin_type == PinType::Analog ==> {
        &&& r.raw == (match sample {
            Some(sample) => sample as int,
            None => 0,
        })
        &&& in_proportion(r.scaled as int, r.raw as int, 4095)
    }
}

/// A reading shows the binary digit of its GPIO, the duty without its four fractional bits, or
/// the sample.
proof fn lemma_shows_values(
    registered: RegisteredPin,
    register_value: Option<u32>,
    sample: Option<u16>,
)
    ensures
        shows_values(
            registered,
            register_value,
            sample,
            reader::pin_reading(registered, register_value, sample),
        ),
{
    let r = reader::pin_reading(registered, register_value, sample);
    if let Some(bits) = register_value {
        lemma_level_digit(bits, registered.pin);
        assert(bits >> 4 == bits / 16) by (bit_vector);
    }
    lemma_full_duty(registered.pwm_resolution_bits);
    lemma_in_proportion(r.raw as nat, full_duty(registered.pwm_resolution_bits) as nat);
    lemma_in_proportion(r.raw as nat, 4095);
}

/// What a pin shows follows from the value of its register and from its sample: the binary digit
/// whose weight is the power of two of its GPIO number, the duty, or the sample itself.
pub proof fn interpretation_shows_the_values(
    registered: &RegisteredPin,
    register_value: Option<u32>,
    sample: Option<u16>,
    r: PinReading,
)
    requires
        call_ensures(reader::interpret, (registered, register_value, sample), r),
    ensures
        shows_values(*registered, register_value, sample, r),
{
    lemma_shows_values(*registered, register_value, sample);
}

/// A register in which only the bit of one GPIO is set shows that GPIO as high, and every other
/// one of the same register as low.
pub proof fn one_bit_is_one_pin(
    set: u8,
    registered: &RegisteredPin,
    register_value: u32,
    sample: Option<u16>,
    r: PinReading,
)
    requires
        set / 32 == registered.pin / 32,
        register_value == two_to(set as int % 32),
        registered.pin_type == PinType::Digital,
        call_ensures(reader::interpret, (registered, Some(register_value), sample), r),
    ensures
        r.raw == 1 <==> registered.pin == set,
        r.raw == 0 <==> registered.pin != set,
{
    let a: u32 = (set % 32) as u32;
    let b: u32 = (registered.pin % 32) as u32;
    vstd::arithmetic::power2::lemma2_to64();
    vstd::arithmetic::power2::lemma_pow2_strictly_increases(a as nat, 32);
    vstd::bits::lemma_u32_shl_is_mul(1, a);
    assert(register_value == 1u32 << a);
    assert(((1u32 << a) & (1u32 << b) != 0) <==> a == b) by (bit_vector)
        requires
            a < 32,
            b < 32,
    ;
    assert(1u32 << (registered.pin % 32) == 1u32 << b);
}

/// Whether a reading is live: it shows what the register and the analog source, where the pin
/// has them, say now.
pub open spec fn is_live<R: Fn(Register) -> u32, A: Fn(u8) -> u16>(
    chip: Chip,
    registered: RegisteredPin,
    read_register: R,
    analog_source: Option<A>,
    r: PinReading,
) -> bool {
    exists|register_value: Option<u32>, sample: Option<u16>|
        {
            &&& #[trigger] shows_values(registered, register_value, sample, r)
            &&& match register_value {
                Some(bits) => chip != Chip::Host && exists|register: Register|
                    shown_by(chip, registered, register) && #[trigger] call_ensures(
                        read_register,
                        (register,),
                        bits,
                    ),
                None => chip == Chip::Host || forall|register: Register|
                    !shown_by(chip, registered, register),
            }
            &&& match sample {
                Some(sample) => registered.pin_type == PinType::Analog && (
                analog_source matches Some(source) && call_ensures(
                    source,
                    (registered.pin,),
                    sample,
                )),
                None => registered.pin_type != PinType::Analog || analog_source is None,
            }
        }
}

/// What the reader takes for a reading of the chip is live.
pub proof fn lemma_shown_readings_are_live<R: Fn(Register) -> u32, A: Fn(u8) -> u16>(
    chip: Chip,
    registered: RegisteredPin,
    read_register: R,
    analog_source: Option<A>,
    r: PinReading,
)
    requires
        reader::shows(chip, registered, read_register, analog_source, r),
    ensures
        is_live(chip, registered, read_register, analog_source, r),
{
    let (register_value, sample) = choose|register_value: Option<u32>, sample: Option<u16>|
        {
            &&& #[trigger] reader::pin_reading(registered, register_value, sample) == r
            &&& register_value is Some <==> reader::pin_register(chip, registered) is Some
            &&& register_value matches Some(bits) ==> call_ensures(
                read_register,
                (reader::pin_register(chip, registered)->0,),
                bits,
            )
            &&& sample is Some <==> registered.pin_type == PinType::Analog && analog_source is Some
            &&& sample matches Some(sample) ==> call_ensures(
                analog_source->0,
                (registered.pin,),
                sample,
            )
        };
    lemma_shows_values(registered, register_value, sample);
    assert(shows_values(registered, register_value, sample, r));
    match reader::pin_register(chip, registered) {
        Some(register) => {
            assert(shown_by(chip, registered, register));
        },
        None => {
            assert forall|register: Register| chip != Chip::Host implies !shown_by(
                chip,
                registered,
                register,
            ) by {
                match register {
                    Register::GpioIn => {},
                    Register::GpioIn1 => {},
                    Register::LedcHighSpeed(_) => {},
                    Register::LedcLowSpeed(_) => {},
                    Register::LedcChannel(_) => {},
                }
            }
        },
    }
}

/// A pin of a chip is read live.
pub proof fn pins_are_read_live<R: Fn(Register) -> u32, A: Fn(u8) -> u16>(
    chip: Chip,
    registered: &RegisteredPin,
    read_register: &R,
    analog_source: &Option<A>,
    r: PinReading,
)
    requires
        call_ensures(
            reader::read_pin_of::<R, A>,
            (chip, registered, read_register, analog_source),
            r,
        ),
    ensures
        is_live(chip, *registered, *read_register, *analog_source, r),
{
    lemma_shown_readings_are_live(chip, *registered, *read_register, *analog_source, r);
}

/// Whether a reading is one without a chip: a digital or PWM pin is zero, and an analog pin shows
/// what its source says, if there is one.
pub open spec fn is_only_a_sample<A: Fn(u8) -> u16>(
    registered: RegisteredPin,
    analog_source: Option<A>,
    reading: PinReading,
) -> bool {
    &&& reading.pin_type == registered.pin_type
    &&& if registered.pin_type == PinType::Analog && analog_source is Some {
        exists|sample: u16|
            {
                &&& #[trigger] call_ensures(analog_source->0, (registered.pin,), sample)
                &&& reading.raw == sample
                &&& in_proportion(reading.scaled as int, sample as int, 4095)
            }
    } else {
        reading.raw == 0 && reading.scaled == 0
    }
}

/// A reading that is shown without a chip is only a sample.
pub proof fn lemma_only_samples_are_shown<A: Fn(u8) -> u16>(
    registered: RegisteredPin,
    analog_source: Option<A>,
    r: PinReading,
)
    requires
        reader::shows_without_chip(registered, analog_source, r),
    ensures
        is_only_a_sample(registered, analog_source, r),
{
    lemma_shows_values(registered, None, None);
    let full = full_duty(registered.pwm_resolution_bits);
    if registered.pin_type == PinType::Analog && analog_source is Some {
        let sample = choose|sample: u16|
            {
                &&& #[trigger] call_ensures(analog_source->0, (registered.pin,), sample)
                &&& r == reader::pin_reading(registered, None, Some(sample))
            };
        lemma_shows_values(registered, None, Some(sample));
    } else {
        let scaled = r.scaled as int;
        let scale = if registered.pin_type == PinType::Pwm {
            full
        } else {
            4095
        };
        lemma_full_duty(registered.pwm_resolution_bits);
        if scale > 0 {
            assert(scaled * scale <= 0 ==> scaled == 0) by (nonlinear_arith)
                requires
                    scaled >= 0,
                    scale > 0,
            ;
        }
    }
}

/// Without a chip, a digital or PWM pin is zero, and an analog pin shows what its source says.
pub proof fn pins_without_a_chip_show_only_samples<A: Fn(u8) -> u16>(
    registered: &RegisteredPin,
    analog_source: Option<A>,
    r: PinReading,
)
    requires
        call_ensures(reader::read_pin::<A>, (registered, analog_source), r),
    ensures
        is_only_a_sample(*registered, analog_source, r),
{
    lemma_only_samples_are_shown(*registered, analog_source, r);
}

} // verus!
