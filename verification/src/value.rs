//! Pin values: the raw reading of a pin and the scaled value shown for it.

use crate::pin::PinType;
use vstd::prelude::*;

verus! {

/// The quotient of two integers, rounded toward zero.
pub open spec fn truncated_quotient(numerator: int, denominator: int) -> int
    recommends
        denominator != 0,
{
    // Both dividends are non-negative, where `/` on integers rounds toward zero.
    if numerator >= 0 {
        numerator / denominator
    } else {
        -((-numerator) / denominator)
    }
}

/// `value`, taken from the range `in_low..=in_high` to the range `out_low..=out_high`.
///
/// An input range without width gives `out_low`.
pub open spec fn mapped(value: int, in_low: int, in_high: int, out_low: int, out_high: int) -> int {
    if in_high == in_low {
        out_low
    } else {
        truncated_quotient((value - in_low) * (out_high - out_low), in_high - in_low) + out_low
    }
}

/// Whether every step of the mapping stays within 64 bits.
pub open spec fn mapping_fits(
    value: int,
    in_low: int,
    in_high: int,
    out_low: int,
    out_high: int,
) -> bool {
    in_high == in_low || {
        &&& i64::MIN <= value - in_low <= i64::MAX
        &&& i64::MIN <= out_high - out_low <= i64::MAX
        &&& i64::MIN <= (value - in_low) * (out_high - out_low) <= i64::MAX
        &&& i64::MIN <= in_high - in_low <= i64::MAX
        &&& i64::MIN <= truncated_quotient(
            (value - in_low) * (out_high - out_low),
            in_high - in_low,
        ) <= i64::MAX
        &&& i64::MIN <= mapped(value, in_low, in_high, out_low, out_high) <= i64::MAX
    }
}

/// Arduino's `map()` on integers: the division rounds toward zero.
pub fn map_value(value: i64, in_low: i64, in_high: i64, out_low: i64, out_high: i64) -> (r: i64)
    requires
        mapping_fits(value as int, in_low as int, in_high as int, out_low as int, out_high as int),
    ensures
        r == mapped(value as int, in_low as int, in_high as int, out_low as int, out_high as int),
{
    if in_high == in_low {
        return out_low;
    }
    let product: i64 = (value - in_low) * (out_high - out_low);
    let width: i64 = in_high - in_low;
    assert(product == i64::MIN && width == -1 ==> truncated_quotient(
        product as int,
        width as int,
    ) == i64::MAX + 1);
    product / width + out_low
}

/// The sampled state of one pin, as sent in a `gpio-state` frame.
#[derive(Debug, Clone, Copy, PartialEq, Eq, Structural)]
pub struct PinReading {
    /// Scaled value, `0..=256` (`s`).
    pub scaled: u32,
    /// Raw reading (`v`): 0 or 1 for digital, the duty for PWM, `0..=4095` for analog.
    pub raw: u32,
    /// How the pin was sampled (`t`).
    pub pin_type: PinType,
}

/// `raw` scaled from `0..=full_scale` to `0..=255`, rounded down; a larger value counts as full
/// scale, and without a scale the result is zero.
pub open spec fn scaled_to_8_bits(raw: nat, full_scale: nat) -> nat {
    if full_scale == 0 {
        0
    } else if raw >= full_scale {
        255
    } else {
        raw * 255 / full_scale
    }
}

/// The reading of a digital pin.
pub open spec fn digital_reading(high: bool) -> PinReading {
    if high {
        PinReading { scaled: 256, raw: 1, pin_type: PinType::Digital }
    } else {
        PinReading { scaled: 0, raw: 0, pin_type: PinType::Digital }
    }
}

/// The reading of a PWM pin.
pub open spec fn pwm_reading(duty: u32, max_duty: u32) -> PinReading {
    PinReading {
        scaled: scaled_to_8_bits(duty as nat, max_duty as nat) as u32,
        raw: duty,
        pin_type: PinType::Pwm,
    }
}

/// The reading of an analog pin, at 12 bits of resolution.
pub open spec fn analog_reading(raw: u32) -> PinReading {
    PinReading {
        scaled: scaled_to_8_bits(raw as nat, 4095) as u32,
        raw,
        pin_type: PinType::Analog,
    }
}

/// Scale a reading to 8 bits through [`map_value`], limited to `0..=255`.
fn scale_to_8_bits(raw: u32, full_scale: u32) -> (r: u32)
    requires
        full_scale > 0,
    ensures
        r == scaled_to_8_bits(raw as nat, full_scale as nat),
{
    proof {
        lemma_scale_bounds(raw as nat, full_scale as nat);
    }
    let mapped: i64 = map_value(raw as i64, 0, full_scale as i64, 0, 255);
    if mapped > 255 {
        255
    } else {
        mapped as u32
    }
}

/// The product of a reading and 255 fits into 64 bits, and the quotient is above 255 only beyond
/// full scale.
proof fn lemma_scale_bounds(raw: nat, full_scale: nat)
    requires
        0 < full_scale,
        raw <= u32::MAX,
    ensures
        0 <= raw * 255 / full_scale <= raw * 255 <= 255 * u32::MAX,
        raw >= full_scale ==> raw * 255 / full_scale >= 255,
        raw < full_scale ==> raw * 255 / full_scale <= 255,
{
    assert(0 <= raw * 255 / full_scale <= raw * 255) by (nonlinear_arith)
        requires
            0 < full_scale,
    ;
    if raw >= full_scale {
        assert(raw * 255 / full_scale >= 255) by (nonlinear_arith)
            requires
                0 < full_scale <= raw,
        ;
    } else {
        assert(raw * 255 / full_scale <= 255) by (nonlinear_arith)
            requires
                raw < full_scale,
        ;
    }
}

impl PinReading {
    /// Digital read: high gives `s = 256, v = 1`, low gives `s = 0, v = 0`.
    pub fn digital(high: bool) -> (r: Self)
        ensures
            r == digital_reading(high),
    {
        if high {
            PinReading { scaled: 256, raw: 1, pin_type: PinType::Digital }
        } else {
            PinReading { scaled: 0, raw: 0, pin_type: PinType::Digital }
        }
    }

    /// PWM read: `v` is the duty and `s` the duty scaled from `0..=max_duty` to `0..=255`.
    ///
    /// A `max_duty` of zero gives `s = 0`; a duty above `max_duty` gives `s = 255`.
    pub fn pwm(duty: u32, max_duty: u32) -> (r: Self)
        ensures
            r == pwm_reading(duty, max_duty),
    {
        let scaled: u32 = if max_duty == 0 {
            0
        } else {
            scale_to_8_bits(duty, max_duty)
        };
        PinReading { scaled, raw: duty, pin_type: PinType::Pwm }
    }

    /// Analog read: `v` is the sample and `s` the sample scaled from `0..=4095` to `0..=255`.
    pub fn analog(raw: u32) -> (r: Self)
        ensures
            r == analog_reading(raw),
    {
        PinReading { scaled: scale_to_8_bits(raw, 4095), raw, pin_type: PinType::Analog }
    }
}

/// The two ends of the input range go to the two ends of the output range.
pub proof fn mapping_keeps_endpoints(in_low: int, in_high: int, out_low: int, out_high: int)
    requires
        in_low != in_high,
    ensures
        mapped(in_low, in_low, in_high, out_low, out_high) == out_low,
        mapped(in_high, in_low, in_high, out_low, out_high) == out_high,
{
    let width = in_high - in_low;
    let span = out_high - out_low;
    assert((in_low - in_low) * span == 0) by (nonlinear_arith);
    assert(0int / width == 0) by (nonlinear_arith)
        requires
            width != 0,
    ;
    assert(width * span == span * width) by (nonlinear_arith);
    assert(span * width >= 0 ==> (span * width) / width == span) by (nonlinear_arith)
        requires
            width != 0,
    ;
    assert(span * width < 0 ==> (-(span * width)) / width == -span) by (nonlinear_arith)
        requires
            width != 0,
    ;
}

/// A scaled value never leaves `0..=256`, and only a digital pin that is high reaches 256.
pub proof fn scaled_values_are_in_range(high: bool, raw: u32, full_scale: u32)
    ensures
        digital_reading(high).scaled == (if high {
            256u32
        } else {
            0
        }),
        pwm_reading(raw, full_scale).scaled <= 255,
        analog_reading(raw).scaled <= 255,
{
    if full_scale > 0 {
        lemma_scale_bounds(raw as nat, full_scale as nat);
    }
    lemma_scale_bounds(raw as nat, 4095);
}

/// A larger reading never gives a smaller scaled value.
pub proof fn scaling_is_monotonic(low: nat, high: nat, full_scale: nat)
    requires
        low <= high,
    ensures
        scaled_to_8_bits(low, full_scale) <= scaled_to_8_bits(high, full_scale),
{
    if 0 < full_scale {
        if high < full_scale {
            assert(low * 255 / full_scale <= high * 255 / full_scale) by (nonlinear_arith)
                requires
                    low <= high,
                    0 < full_scale,
            ;
        } else if low < full_scale {
            assert(low * 255 / full_scale <= 255) by (nonlinear_arith)
                requires
                    low < full_scale,
            ;
        }
    }
}

} // verus!
