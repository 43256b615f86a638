use esp_gpio_viewer::capabilities::Chip;
use esp_gpio_viewer::fixed::{FixedString, FixedVec};
use esp_gpio_viewer::reader::Register;
use esp_gpio_viewer::sampler::{
    diff_changes, read_all, read_all_of, resolve_free_heap, resolve_free_psram, Frame, PinChange,
    Sampler, FREE_HEAP_FALLBACK,
};
use esp_gpio_viewer::{
    AnalogSource, GpioViewer, PinMode, PinReading, PinType, RegisteredPin, MAX_REGISTERED_PINS,
};

fn digital_pin(pin: u8) -> RegisteredPin {
    RegisteredPin {
        pin,
        mode: PinMode::Input,
        pin_type: PinType::Digital,
        pwm_channel: None,
        pwm_resolution_bits: None,
    }
}

#[test]
fn resolve_free_heap_uses_injected_source() {
    fn heap_reader() -> u32 {
        123_456
    }
    assert_eq!(resolve_free_heap(Some(heap_reader)), 123_456);
}

#[test]
fn resolve_free_heap_falls_back_when_absent() {
    assert_eq!(resolve_free_heap(None::<fn() -> u32>), FREE_HEAP_FALLBACK);
    assert_eq!(resolve_free_heap(None::<fn() -> u32>), 0);
}

#[test]
fn resolve_free_psram_returns_some_when_source_present() {
    fn psram_reader() -> u32 {
        2_097_152
    }
    assert_eq!(resolve_free_psram(Some(psram_reader)), Some(2_097_152));
}

#[test]
fn resolve_free_psram_returns_none_when_absent() {
    assert_eq!(resolve_free_psram(None::<fn() -> u32>), None);
}

#[test]
fn diff_no_change_emits_nothing() {
    let pins = [digital_pin(2), digital_pin(4)];
    let readings = [PinReading::digital(true), PinReading::digital(false)];
    let mut previous = [1u32, 0u32];
    let mut out: FixedVec<PinChange, 8> = FixedVec::new();

    diff_changes(&pins, &readings, &mut previous, &mut out);

    assert!(out.is_empty());
    assert_eq!(previous, [1u32, 0u32]);
}

#[test]
fn diff_single_change_emits_one_and_updates_previous() {
    let pins = [digital_pin(2), digital_pin(4)];
    let readings = [PinReading::digital(true), PinReading::digital(false)];
    let mut previous = [0u32, 0u32];
    let mut out: FixedVec<PinChange, 8> = FixedVec::new();

    diff_changes(&pins, &readings, &mut previous, &mut out);

    assert_eq!(out.as_slice(), &[(2u8, 256u32, 1u32, 0u8)]);
    assert_eq!(previous, [1u32, 0u32]);
}

#[test]
fn diff_multiple_changes_preserve_registration_order() {
    let pins = [digital_pin(2), digital_pin(4)];
    let readings = [PinReading::digital(true), PinReading::digital(false)];
    let mut previous = [0u32, 1u32];
    let mut out: FixedVec<PinChange, 8> = FixedVec::new();

    diff_changes(&pins, &readings, &mut previous, &mut out);

    assert_eq!(
        out.as_slice(),
        &[(2u8, 256u32, 1u32, 0u8), (4u8, 0u32, 0u32, 0u8)]
    );
    assert_eq!(previous, [1u32, 0u32]);
}

#[test]
fn diff_clears_stale_output_before_filling() {
    let pins = [digital_pin(7)];
    let readings = [PinReading::digital(true)];
    let mut previous = [0u32];
    let mut out: FixedVec<PinChange, 8> = FixedVec::new();
    let _ = out.push((99u8, 1u32, 1u32, 0u8));

    diff_changes(&pins, &readings, &mut previous, &mut out);

    assert_eq!(out.as_slice(), &[(7u8, 256u32, 1u32, 0u8)]);
}

#[test]
fn diff_round_trips_through_gpio_state_body() {
    let pins = [digital_pin(2), digital_pin(4)];
    let readings = [PinReading::digital(true), PinReading::digital(false)];
    let mut previous = [0u32, 1u32];
    let mut out: FixedVec<PinChange, 8> = FixedVec::new();

    diff_changes(&pins, &readings, &mut previous, &mut out);

    assert_eq!(
        esp_gpio_viewer::protocol::gpio_state_body(out.as_slice()).as_str(),
        "{\"2\": {\"s\": 256, \"v\": 1, \"t\": 0}, \"4\": {\"s\": 0, \"v\": 0, \"t\": 0}}"
    );
}

#[test]
fn diff_stops_at_shortest_slice_without_panicking() {
    let pins = [digital_pin(2), digital_pin(4), digital_pin(5)];
    let readings = [
        PinReading::digital(true),
        PinReading::digital(true),
        PinReading::digital(true),
    ];
    let mut previous = [0u32, 0u32];
    let mut out: FixedVec<PinChange, 8> = FixedVec::new();

    diff_changes(&pins, &readings, &mut previous, &mut out);

    assert_eq!(
        out.as_slice(),
        &[(2u8, 256u32, 1u32, 0u8), (4u8, 256u32, 1u32, 0u8)]
    );
}

#[test]
fn diff_drops_changes_without_room_but_remembers_them() {
    let pins = [digital_pin(2), digital_pin(4), digital_pin(5)];
    let readings = [PinReading::digital(true); 3];
    let mut previous = [0u32; 3];
    let mut out: FixedVec<PinChange, 2> = FixedVec::new();
    diff_changes(&pins, &readings, &mut previous, &mut out);
    assert_eq!(
        out.as_slice(),
        &[(2u8, 256u32, 1u32, 0u8), (4u8, 256u32, 1u32, 0u8)]
    );
    assert_eq!(previous, [1u32, 1u32, 1u32]);
    diff_changes(&pins, &readings, &mut previous, &mut out);
    assert!(out.is_empty());
}

#[test]
fn diff_leaves_what_is_beyond_the_readings() {
    let pins = [digital_pin(2), digital_pin(4)];
    let readings = [PinReading::digital(true)];
    let mut previous = [0u32, 9u32, 9u32];
    let mut out: FixedVec<PinChange, 8> = FixedVec::new();
    diff_changes(&pins, &readings, &mut previous, &mut out);
    assert_eq!(out.as_slice(), &[(2u8, 256u32, 1u32, 0u8)]);
    assert_eq!(previous, [1u32, 9u32, 9u32]);
}

fn analog_pin(pin: u8) -> RegisteredPin {
    RegisteredPin {
        pin,
        mode: PinMode::Analog,
        pin_type: PinType::Analog,
        pwm_channel: None,
        pwm_resolution_bits: None,
    }
}

#[test]
fn pins_are_read_in_order_up_to_the_capacity() {
    let pins: Vec<RegisteredPin> = (0..60).map(analog_pin).collect();
    let mut out: FixedVec<PinReading, MAX_REGISTERED_PINS> = FixedVec::new();
    read_all(&pins, Some(|gpio: u8| gpio as u16 * 10), &mut out);
    assert_eq!(out.len(), MAX_REGISTERED_PINS);
    for (index, reading) in out.as_slice().iter().enumerate() {
        assert_eq!(reading.raw as usize, index * 10);
    }
    read_all(&pins[..1], None::<AnalogSource>, &mut out);
    assert_eq!(out.as_slice(), &[PinReading::analog(0)]);
}

#[test]
fn pins_are_read_from_the_registers_of_the_chip() {
    let pins = [digital_pin(3), digital_pin(33), analog_pin(4)];
    let mut out: FixedVec<PinReading, MAX_REGISTERED_PINS> = FixedVec::new();
    let read_register = |register: Register| match register {
        Register::GpioIn => 0b1000,
        _ => 0b01,
    };
    read_all_of(Chip::Esp32, &pins, &read_register, &None::<AnalogSource>, &mut out);
    assert_eq!(
        out.as_slice(),
        &[PinReading::digital(true), PinReading::digital(false), PinReading::analog(0)]
    );
}

fn payload(frame: Option<Frame>) -> Option<(&'static str, String)> {
    frame.map(|frame| (frame.event(), frame.data().to_string()))
}

#[test]
fn primed_sampler_reports_only_changes() {
    let pins = [digital_pin(2), digital_pin(4)];
    let first = [PinReading::digital(true), PinReading::digital(false)];
    let mut sampler = Sampler::primed(&first, 2048);
    let cycle = sampler.cycle(&pins, &first, 2048, 0);
    assert!(!cycle.is_active());
    let second = [PinReading::digital(true), PinReading::digital(true)];
    let cycle = sampler.cycle(&pins, &second, 2048, 5000);
    assert!(cycle.is_active());
    assert_eq!(
        payload(cycle.gpio_state),
        Some(("gpio-state", "{\"4\": {\"s\": 256, \"v\": 1, \"t\": 0}}".to_string()))
    );
    // A change takes the place of the heartbeat.
    assert_eq!(payload(cycle.free_heap), None);
    assert!(!sampler.cycle(&pins, &second, 2048, 0).is_active());
}

#[test]
fn changed_heap_is_sent_at_once() {
    let pins = [digital_pin(2)];
    let readings = [PinReading::digital(true)];
    let mut sampler = Sampler::primed(&readings, 2048);
    let cycle = sampler.cycle(&pins, &readings, 1536, 0);
    assert_eq!(payload(cycle.gpio_state), None);
    assert_eq!(payload(cycle.free_heap), Some(("free_heap", "1.50 KB".to_string())));
    let both = [PinReading::digital(false)];
    let cycle = sampler.cycle(&pins, &both, 512, 0);
    assert!(cycle.gpio_state.is_some());
    assert_eq!(payload(cycle.free_heap), Some(("free_heap", "512 B".to_string())));
}

#[test]
fn heartbeat_follows_a_second_of_silence() {
    let pins = [digital_pin(2)];
    let readings = [PinReading::digital(true)];
    let mut sampler = Sampler::primed(&readings, 2048);
    assert!(!sampler.cycle(&pins, &readings, 2048, 999).is_active());
    let cycle = sampler.cycle(&pins, &readings, 2048, 1000);
    assert_eq!(payload(cycle.gpio_state), None);
    assert_eq!(payload(cycle.free_heap), Some(("free_heap", "2.00 KB".to_string())));
}

#[test]
fn viewer_is_sampled_through_its_sources() {
    let viewer = <GpioViewer>::builder()
        .register(2, PinMode::Output, PinType::Digital)
        .pwm(4, 0, 8)
        .adc(34)
        .analog_source(|gpio| gpio as u16)
        .free_heap_source(|| 1024)
        .build();
    let idle = |_register: Register| 0u32;
    let busy = |register: Register| match register {
        Register::GpioIn => 0b100,
        Register::LedcHighSpeed(0) => 255 << 4,
        _ => 0,
    };
    let mut sampler = Sampler::start(&viewer, Chip::Esp32, &idle);
    assert!(!sampler.sample(&viewer, Chip::Esp32, &idle, &|| 0).is_active());
    let cycle = sampler.sample(&viewer, Chip::Esp32, &busy, &|| 0);
    assert_eq!(
        payload(cycle.gpio_state),
        Some((
            "gpio-state",
            "{\"2\": {\"s\": 256, \"v\": 1, \"t\": 0}, \"4\": {\"s\": 255, \"v\": 255, \"t\": 1}}"
                .to_string()
        ))
    );
    assert_eq!(payload(cycle.free_heap), None);
    let cycle = sampler.sample(&viewer, Chip::Esp32, &busy, &|| 1000);
    assert_eq!(payload(cycle.free_heap), Some(("free_heap", "1.00 KB".to_string())));
}

#[test]
fn frames_name_their_events() {
    let frame = Frame::FreePsram(FixedString::clipped("1.00 MB"));
    let copy = frame.clone();
    assert_eq!(copy.event(), "free_psram");
    assert_eq!(copy.data(), "1.00 MB");
    let frame = Frame::GpioState(FixedString::clipped("{}"));
    assert_eq!(frame.clone().event(), "gpio-state");
    assert_eq!(frame.data(), "{}");
}
