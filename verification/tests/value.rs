use esp_gpio_viewer::{map_value, PinReading, PinType};

#[test]
fn map_value_matches_arduino_midpoint() {
    assert_eq!(map_value(2048, 0, 4095, 0, 255), 127);
}

#[test]
fn map_value_endpoints() {
    assert_eq!(map_value(0, 0, 4095, 0, 255), 0);
    assert_eq!(map_value(4095, 0, 4095, 0, 255), 255);
}

#[test]
fn map_value_degenerate_range_returns_out_low() {
    assert_eq!(map_value(5, 3, 3, 0, 255), 0);
}

#[test]
fn digital_high_and_low() {
    assert_eq!(
        PinReading::digital(true),
        PinReading {
            scaled: 256,
            raw: 1,
            pin_type: PinType::Digital
        }
    );
    assert_eq!(
        PinReading::digital(false),
        PinReading {
            scaled: 0,
            raw: 0,
            pin_type: PinType::Digital
        }
    );
}

#[test]
fn pwm_scales_duty() {
    let reading = PinReading::pwm(128, 255);
    assert_eq!(reading.raw, 128);
    assert_eq!(reading.scaled, 128);
    assert_eq!(reading.pin_type, PinType::Pwm);
}

#[test]
fn pwm_zero_max_duty_is_safe() {
    assert_eq!(PinReading::pwm(50, 0).scaled, 0);
}

#[test]
fn analog_scales_raw() {
    let reading = PinReading::analog(2048);
    assert_eq!(reading.raw, 2048);
    assert_eq!(reading.scaled, 127);
    assert_eq!(reading.pin_type, PinType::Analog);
}

#[test]
fn map_value_truncates_toward_zero() {
    assert_eq!(map_value(-1, 0, 2, 0, 5), -2);
    assert_eq!(map_value(1, 0, 2, 0, -5), -2);
    assert_eq!(map_value(10, 20, 0, 0, 100), 50);
}

#[test]
fn pwm_duty_above_the_maximum_is_full_scale() {
    let reading = PinReading::pwm(9000, 8191);
    assert_eq!(reading.raw, 9000);
    assert_eq!(reading.scaled, 255);
    assert_eq!(PinReading::pwm(8191, 8191).scaled, 255);
    assert_eq!(PinReading::pwm(u32::MAX, u32::MAX).scaled, 255);
    assert_eq!(PinReading::pwm(0, 8191).scaled, 0);
}

#[test]
fn analog_above_twelve_bits_is_full_scale() {
    assert_eq!(PinReading::analog(4095).scaled, 255);
    let reading = PinReading::analog(65535);
    assert_eq!(reading.raw, 65535);
    assert_eq!(reading.scaled, 255);
}

#[test]
fn scaled_values_grow_with_the_reading() {
    let mut last: u32 = 0;
    for raw in 0..=4200u32 {
        let scaled = PinReading::analog(raw).scaled;
        assert!(scaled >= last && scaled <= 255);
        last = scaled;
    }
}
