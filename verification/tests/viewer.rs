use esp_gpio_viewer::protocol;
use esp_gpio_viewer::{
    AnalogSource, GpioViewer, GpioViewerBuilder, PinMode, PinType, RegisteredPin, DEFAULT_PORT,
    DEFAULT_RELEASE, DEFAULT_SAMPLING_INTERVAL_MS, MAX_REGISTERED_PINS,
};

#[test]
fn pin_type_int_values() {
    assert_eq!(PinType::Digital.to_int(), 0);
    assert_eq!(PinType::Pwm.to_int(), 1);
    assert_eq!(PinType::Analog.to_int(), 2);
}

#[test]
fn pin_mode_int_values() {
    assert_eq!(PinMode::Input.to_int(), 0x01);
    assert_eq!(PinMode::Output.to_int(), 0x03);
    assert_eq!(PinMode::InputPullup.to_int(), 0x05);
    assert_eq!(PinMode::InputPulldown.to_int(), 0x09);
    assert_eq!(PinMode::OutputOpenDrain.to_int(), 0x13);
    assert_eq!(PinMode::Analog.to_int(), 0xC0);
}

#[test]
fn builder_defaults() {
    let viewer = <GpioViewer>::builder().build();
    assert_eq!(viewer.sampling_interval_ms, DEFAULT_SAMPLING_INTERVAL_MS);
    assert_eq!(viewer.port, DEFAULT_PORT);
    assert_eq!(viewer.release.as_str(), DEFAULT_RELEASE);
    assert!(viewer.pins.is_empty());
}

#[test]
fn builder_registers_pins_and_emits_pairs() {
    let viewer = <GpioViewer>::builder()
        .sampling_interval_ms(250)
        .port(9000)
        .release("2.0.0")
        .register(2, PinMode::Output, PinType::Digital)
        .register(15, PinMode::InputPullup, PinType::Digital)
        .build();

    assert_eq!(viewer.sampling_interval_ms, 250);
    assert_eq!(viewer.port, 9000);
    assert_eq!(viewer.release.as_str(), "2.0.0");

    let pairs = viewer.pinmode_pairs();
    assert_eq!(pairs.as_slice(), &[(2u8, 0x03u32), (15u8, 0x05u32)]);
    assert_eq!(
        protocol::pinmodes_body(pairs.as_slice()).as_str(),
        "[{\"pin\":\"2\",\"mode\":\"3\"},{\"pin\":\"15\",\"mode\":\"5\"}]"
    );
}

#[test]
fn builder_pwm_registers_channel_and_resolution() {
    let viewer = <GpioViewer>::builder().pwm(18, 3, 10).build();

    let registered = viewer.pins.as_slice().first().expect("one PWM pin registered");
    assert_eq!(registered.pin, 18);
    assert_eq!(registered.pin_type, PinType::Pwm);
    assert_eq!(registered.mode, PinMode::Output);
    assert_eq!(registered.pwm_channel, Some(3));
    assert_eq!(registered.pwm_resolution_bits, Some(10));

    let pairs = viewer.pinmode_pairs();
    assert_eq!(pairs.as_slice(), &[(18u8, 0x03u32)]);
}

#[test]
fn builder_adc_registers_analog_pin() {
    let viewer = <GpioViewer>::builder().adc(34).build();

    let registered = viewer.pins.as_slice().first().expect("one ADC pin registered");
    assert_eq!(registered.pin, 34);
    assert_eq!(registered.pin_type, PinType::Analog);
    assert_eq!(registered.mode, PinMode::Analog);
    assert_eq!(registered.pwm_channel, None);
    assert_eq!(registered.pwm_resolution_bits, None);

    let pairs = viewer.pinmode_pairs();
    assert_eq!(pairs.as_slice(), &[(34u8, 192u32)]);
}

#[test]
fn builder_analog_source_is_stored() {
    fn fake_adc(_gpio: u8) -> u16 {
        2048
    }
    let injected = <GpioViewer>::builder().analog_source(fake_adc).build();
    assert!(injected.analog_source.is_some());
    assert_eq!(injected.analog_source.unwrap()(0), 2048);

    let absent = <GpioViewer>::builder().build();
    assert!(absent.analog_source.is_none());
}

#[test]
fn builder_mixes_all_pin_types() {
    let viewer = <GpioViewer>::builder()
        .register(2, PinMode::Output, PinType::Digital)
        .pwm(18, 0, 8)
        .adc(36)
        .build();

    let types: Vec<PinType> = viewer.pins.as_slice().iter().map(|pin| pin.pin_type).collect();
    assert_eq!(
        types.as_slice(),
        &[PinType::Digital, PinType::Pwm, PinType::Analog]
    );
}

#[test]
fn release_is_truncated_to_its_buffer() {
    let long = "1234567890123456789012345678901é";
    let viewer = <GpioViewer>::builder().release(long).build();
    assert_eq!(viewer.release.as_str(), "1234567890123456789012345678901");
    let exact = "12345678901234567890123456789012";
    let viewer = <GpioViewer>::builder().release(long).release(exact).build();
    assert_eq!(viewer.release.as_str(), exact);
}

#[test]
fn full_registry_ignores_further_pins() {
    let mut builder = <GpioViewer>::builder();
    for pin in 0..60u8 {
        builder = match pin % 3 {
            0 => builder.register(pin, PinMode::Input, PinType::Digital),
            1 => builder.pwm(pin, 0, 8),
            _ => builder.adc(pin),
        };
    }
    let viewer = builder.build();
    assert_eq!(viewer.pins.len(), MAX_REGISTERED_PINS);
    for (index, registered) in viewer.pins.as_slice().iter().enumerate() {
        assert_eq!(registered.pin as usize, index);
    }
    assert_eq!(viewer.pinmode_pairs().len(), MAX_REGISTERED_PINS);
}

#[test]
fn default_builder_is_the_new_builder() {
    let viewer = GpioViewerBuilder::<fn() -> u32, fn() -> u32, AnalogSource>::default().build();
    assert_eq!(viewer.port, 8080);
    assert_eq!(viewer.sampling_interval_ms, 100);
    assert_eq!(viewer.release.as_str(), "1.7.1");
    assert!(viewer.free_heap_source.is_none());
    assert!(viewer.free_psram_source.is_none());
}

#[test]
fn sources_are_kept() {
    let viewer = <GpioViewer>::builder()
        .free_heap_source(|| 11)
        .free_psram_source(|| 22)
        .adc(3)
        .build();
    let copy = viewer.clone();
    assert_eq!(copy.free_heap_source.unwrap()(), 11);
    assert_eq!(copy.free_psram_source.unwrap()(), 22);
    assert_eq!(copy.pins.as_slice(), viewer.pins.as_slice());
    assert_eq!(copy.release.as_str(), "1.7.1");
}

#[test]
fn registered_pin_keeps_its_fields() {
    let viewer = <GpioViewer>::builder()
        .register(7, PinMode::OutputOpenDrain, PinType::Pwm)
        .build();
    assert_eq!(
        viewer.pins.as_slice(),
        &[RegisteredPin {
            pin: 7,
            mode: PinMode::OutputOpenDrain,
            pin_type: PinType::Pwm,
            pwm_channel: None,
            pwm_resolution_bits: None,
        }]
    );
}
