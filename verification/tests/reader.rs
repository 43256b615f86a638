use esp_gpio_viewer::capabilities::Chip;
use esp_gpio_viewer::reader::{interpret, read_pin, read_pin_of, register_of, Register};
use esp_gpio_viewer::{AnalogSource, PinMode, PinReading, PinType, RegisteredPin};

fn digital(pin: u8) -> RegisteredPin {
    RegisteredPin {
        pin,
        mode: PinMode::Input,
        pin_type: PinType::Digital,
        pwm_channel: None,
        pwm_resolution_bits: None,
    }
}

fn pwm(channel: Option<u8>, resolution_bits: Option<u8>) -> RegisteredPin {
    RegisteredPin {
        pin: 4,
        mode: PinMode::Output,
        pin_type: PinType::Pwm,
        pwm_channel: channel,
        pwm_resolution_bits: resolution_bits,
    }
}

fn analog(pin: u8) -> RegisteredPin {
    RegisteredPin {
        pin,
        mode: PinMode::Analog,
        pin_type: PinType::Analog,
        pwm_channel: None,
        pwm_resolution_bits: None,
    }
}

#[test]
fn levels_are_in_two_registers() {
    assert_eq!(register_of(Chip::Esp32, &digital(0)), Some(Register::GpioIn));
    assert_eq!(register_of(Chip::Esp32, &digital(31)), Some(Register::GpioIn));
    assert_eq!(register_of(Chip::Esp32, &digital(32)), Some(Register::GpioIn1));
    assert_eq!(register_of(Chip::Esp32, &digital(39)), Some(Register::GpioIn1));
    assert_eq!(register_of(Chip::Esp32, &digital(40)), None);
    assert_eq!(register_of(Chip::Esp32S3, &digital(48)), Some(Register::GpioIn1));
    assert_eq!(register_of(Chip::Esp32S3, &digital(49)), None);
    assert_eq!(register_of(Chip::Host, &digital(0)), None);
}

#[test]
fn duties_are_in_the_registers_of_their_channels() {
    assert_eq!(
        register_of(Chip::Esp32, &pwm(Some(7), None)),
        Some(Register::LedcHighSpeed(7))
    );
    assert_eq!(
        register_of(Chip::Esp32, &pwm(Some(8), None)),
        Some(Register::LedcLowSpeed(0))
    );
    assert_eq!(
        register_of(Chip::Esp32, &pwm(Some(15), None)),
        Some(Register::LedcLowSpeed(7))
    );
    assert_eq!(register_of(Chip::Esp32, &pwm(Some(16), None)), None);
    assert_eq!(
        register_of(Chip::Esp32S3, &pwm(Some(7), None)),
        Some(Register::LedcChannel(7))
    );
    assert_eq!(register_of(Chip::Esp32S3, &pwm(Some(8), None)), None);
    assert_eq!(register_of(Chip::Esp32, &pwm(None, Some(8))), None);
    assert_eq!(register_of(Chip::Host, &pwm(Some(0), None)), None);
    assert_eq!(register_of(Chip::Esp32, &analog(34)), None);
}

#[test]
fn level_is_one_bit_of_the_register() {
    assert_eq!(interpret(&digital(5), Some(1 << 5), None), PinReading::digital(true));
    assert_eq!(interpret(&digital(5), Some(!(1 << 5)), None), PinReading::digital(false));
    assert_eq!(interpret(&digital(31), Some(1 << 31), None), PinReading::digital(true));
    assert_eq!(interpret(&digital(33), Some(2), None), PinReading::digital(true));
    assert_eq!(interpret(&digital(33), None, None), PinReading::digital(false));
}

#[test]
fn duty_is_scaled_by_its_resolution() {
    assert_eq!(
        interpret(&pwm(Some(0), Some(13)), Some(4096 << 4 | 0xF), None),
        PinReading::pwm(4096, 8191)
    );
    assert_eq!(
        interpret(&pwm(Some(0), Some(1)), Some(1 << 4), None),
        PinReading::pwm(1, 1)
    );
    assert_eq!(
        interpret(&pwm(Some(0), Some(31)), Some(1 << 4), None),
        PinReading::pwm(1, 0x7fff_ffff)
    );
    assert_eq!(
        interpret(&pwm(Some(0), Some(32)), Some(u32::MAX), None),
        PinReading::pwm(0x0fff_ffff, u32::MAX)
    );
    assert_eq!(
        interpret(&pwm(Some(0), Some(200)), Some(u32::MAX), None),
        PinReading::pwm(0x0fff_ffff, u32::MAX)
    );
    assert_eq!(
        interpret(&pwm(Some(0), Some(0)), Some(1 << 4), None),
        PinReading::pwm(1, 0)
    );
    assert_eq!(
        interpret(&pwm(Some(0), None), Some(1 << 4), None),
        PinReading::pwm(1, 0)
    );
    assert_eq!(interpret(&pwm(None, Some(8)), None, None), PinReading::pwm(0, 255));
}

#[test]
fn registers_are_read_only_where_they_exist() {
    let read_register = |register: Register| match register {
        Register::GpioIn1 => 0b10,
        Register::LedcLowSpeed(1) => 128 << 4,
        _ => panic!("not asked for"),
    };
    let none: Option<AnalogSource> = None;
    assert_eq!(
        read_pin_of(Chip::Esp32, &digital(33), &read_register, &none),
        PinReading::digital(true)
    );
    assert_eq!(
        read_pin_of(Chip::Esp32, &pwm(Some(9), Some(8)), &read_register, &none),
        PinReading::pwm(128, 255)
    );
    assert_eq!(
        read_pin_of(Chip::Esp32, &digital(77), &read_register, &none),
        PinReading::digital(false)
    );
    assert_eq!(
        read_pin_of(Chip::Esp32S3, &pwm(Some(9), Some(8)), &read_register, &none),
        PinReading::pwm(0, 255)
    );
}

#[test]
fn analog_pins_are_read_through_the_source() {
    fn source(gpio: u8) -> u16 {
        gpio as u16 * 100
    }
    assert_eq!(read_pin(&analog(34), Some(source)), PinReading::analog(3400));
    assert_eq!(
        read_pin(&analog(34), None::<AnalogSource>),
        PinReading::analog(0)
    );
}

#[test]
fn without_a_chip_pins_are_low() {
    assert_eq!(
        read_pin(&digital(2), None::<AnalogSource>),
        PinReading::digital(false)
    );
    assert_eq!(
        read_pin(&pwm(Some(0), Some(8)), None::<AnalogSource>),
        PinReading::pwm(0, 255)
    );
}
