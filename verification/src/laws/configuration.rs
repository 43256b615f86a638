//! What a viewer is configured with, and what is known of chips and flash.

use crate::capabilities::Chip;
use crate::fixed::{FixedString, FixedVec};
use crate::hwinfo;
use crate::hwinfo::{Hardware, PartitionReadError};
use crate::laws::texts;
use crate::pin::{PinMode, PinType, RegisteredPin};
use crate::protocol::{EspInfo, PartitionInfo};
use crate::viewer::{GpioViewer, GpioViewerBuilder, MAX_REGISTERED_PINS};
use vstd::prelude::*;
use vstd::string::*;

verus! {

/// The Arduino number of a pin mode.
pub open spec fn mode_number(mode: PinMode) -> int {
    match mode {
        PinMode::Input => 0x01,
        PinMode::Output => 0x03,
        PinMode::InputPullup => 0x05,
        PinMode::InputPulldown => 0x09,
        PinMode::OutputOpenDrain => 0x13,
        PinMode::Analog => 0xC0,
    }
}

/// A pin type and a pin mode are sent as their numbers.
pub proof fn types_and_modes_have_numbers(
    pin_type: PinType,
    mode: PinMode,
    type_sent: u8,
    mode_sent: u32,
)
    requires
        call_ensures(PinType::to_int, (pin_type,), type_sent),
        call_ensures(PinMode::to_int, (mode,), mode_sent),
    ensures
        type_sent == crate::laws::sampling::type_number(pin_type),
        mode_sent == mode_number(mode),
{
}

/// Whether the pairs give GPIO number and mode number of each pin, in order.
pub open spec fn are_modes_of(pairs: Seq<(u8, u32)>, pins: Seq<RegisteredPin>) -> bool {
    &&& pairs.len() == pins.len()
    &&& forall|i: int|
        0 <= i < pairs.len() ==> (#[trigger] pairs[i]).0 == pins[i].pin && pairs[i].1
            == mode_number(pins[i].mode)
}

/// The modes of a viewer are those of its pins, in the order of registration.
pub proof fn pairs_give_the_modes_of_pins<H, P, A>(
    viewer: &GpioViewer<H, P, A>,
    r: FixedVec<(u8, u32), MAX_REGISTERED_PINS>,
)
    requires
        call_ensures(GpioViewer::<H, P, A>::pinmode_pairs, (viewer,), r),
    ensures
        are_modes_of(r@, viewer.pins@),
{
}

/// Whether a pin was added behind others, or ignored because there were 48 already.
pub open spec fn is_added(
    before: Seq<RegisteredPin>,
    after: Seq<RegisteredPin>,
    pin: int,
    mode: PinMode,
    pin_type: PinType,
    pwm_channel: Option<u8>,
    pwm_resolution_bits: Option<u8>,
) -> bool {
    if before.len() >= 48 {
        after == before
    } else {
        &&& after.len() == before.len() + 1
        &&& after.drop_last() == before
        &&& after.last().pin == pin
        &&& after.last().mode == mode
        &&& after.last().pin_type == pin_type
        &&& after.last().pwm_channel == pwm_channel
        &&& after.last().pwm_resolution_bits == pwm_resolution_bits
    }
}

/// Whether two configurations are the same but for their pins.
pub open spec fn same_but_pins<H, P, A>(
    one: GpioViewer<H, P, A>,
    other: GpioViewer<H, P, A>,
) -> bool {
    &&& one.sampling_interval_ms == other.sampling_interval_ms
    &&& one.port == other.port
    &&& one.release@ == other.release@
    &&& one.free_heap_source == other.free_heap_source
    &&& one.free_psram_source == other.free_psram_source
    &&& one.analog_source == other.analog_source
}

/// A pin is registered with what it is given, behind the pins that are there.
pub proof fn pins_are_registered<H, P, A>(
    builder: GpioViewerBuilder<H, P, A>,
    pin: u8,
    mode: PinMode,
    pin_type: PinType,
    r: GpioViewerBuilder<H, P, A>,
)
    requires
        call_ensures(GpioViewerBuilder::<H, P, A>::register, (builder, pin, mode, pin_type), r),
    ensures
        is_added(
            builder.configured().pins@,
            r.configured().pins@,
            pin as int,
            mode,
            pin_type,
            None,
            None,
        ),
        same_but_pins(r.configured(), builder.configured()),
{
    assert(builder.configured().pins@.len() < 48 ==> r.configured().pins@.drop_last()
        =~= builder.configured().pins@);
}

/// A PWM pin is registered as an output with its channel and resolution.
pub proof fn pwm_pins_are_registered<H, P, A>(
    builder: GpioViewerBuilder<H, P, A>,
    pin: u8,
    channel: u8,
    resolution_bits: u8,
    r: GpioViewerBuilder<H, P, A>,
)
    requires
        call_ensures(
            GpioViewerBuilder::<H, P, A>::pwm,
            (builder, pin, channel, resolution_bits),
            r,
        ),
    ensures
        is_added(
            builder.configured().pins@,
            r.configured().pins@,
            pin as int,
            PinMode::Output,
            PinType::Pwm,
            Some(channel),
            Some(resolution_bits),
        ),
        same_but_pins(r.configured(), builder.configured()),
{
    assert(builder.configured().pins@.len() < 48 ==> r.configured().pins@.drop_last()
        =~= builder.configured().pins@);
}

/// An ADC pin is registered as an analog input.
pub proof fn adc_pins_are_registered<H, P, A>(
    builder: GpioViewerBuilder<H, P, A>,
    pin: u8,
    r: GpioViewerBuilder<H, P, A>,
)
    requires
        call_ensures(GpioViewerBuilder::<H, P, A>::adc, (builder, pin), r),
    ensures
        is_added(
            builder.configured().pins@,
            r.configured().pins@,
            pin as int,
            PinMode::Analog,
            PinType::Analog,
            None,
            None,
        ),
        same_but_pins(r.configured(), builder.configured()),
{
    assert(builder.configured().pins@.len() < 48 ==> r.configured().pins@.drop_last()
        =~= builder.configured().pins@);
}

/// Interval, port and release are set one without the other, the release as far as it fits.
pub proof fn settings_are_set_one_by_one<H, P, A>(
    builder: GpioViewerBuilder<H, P, A>,
    interval: u32,
    with_interval: GpioViewerBuilder<H, P, A>,
    port: u16,
    with_port: GpioViewerBuilder<H, P, A>,
    release: &str,
    with_release: GpioViewerBuilder<H, P, A>,
)
    requires
        call_ensures(
            GpioViewerBuilder::<H, P, A>::sampling_interval_ms,
            (builder, interval),
            with_interval,
        ),
        call_ensures(GpioViewerBuilder::<H, P, A>::port, (builder, port), with_port),
        call_ensures(GpioViewerBuilder::<H, P, A>::release, (builder, release), with_release),
    ensures
        with_interval.configured().sampling_interval_ms == interval,
        with_interval.configured().port == builder.configured().port,
        with_interval.configured().release@ == builder.configured().release@,
        with_interval.configured().pins@ == builder.configured().pins@,
        with_port.configured().port == port,
        with_port.configured().sampling_interval_ms == builder.configured().sampling_interval_ms,
        with_port.configured().release@ == builder.configured().release@,
        with_port.configured().pins@ == builder.configured().pins@,
        texts::is_what_fits(with_release.configured().release@, release@, 32),
        with_release.configured().port == builder.configured().port,
        with_release.configured().sampling_interval_ms
            == builder.configured().sampling_interval_ms,
        with_release.configured().pins@ == builder.configured().pins@,
        forall|other: GpioViewerBuilder<H, P, A>|
            other == with_interval || other == with_port || other == with_release ==> {
                &&& (#[trigger] other.configured()).free_heap_source
                    == builder.configured().free_heap_source
                &&& other.configured().free_psram_source == builder.configured().free_psram_source
                &&& other.configured().analog_source == builder.configured().analog_source
            },
{
    texts::lemma_clip_is_what_fits(release@, 32);
}

/// Sources are set one without the other, and nothing else changes.
pub proof fn sources_are_set_one_by_one<H, P, A>(
    builder: GpioViewerBuilder<H, P, A>,
    heap: H,
    with_heap: GpioViewerBuilder<H, P, A>,
    psram: P,
    with_psram: GpioViewerBuilder<H, P, A>,
    analog: A,
    with_analog: GpioViewerBuilder<H, P, A>,
)
    requires
        call_ensures(GpioViewerBuilder::<H, P, A>::free_heap_source, (builder, heap), with_heap),
        call_ensures(
            GpioViewerBuilder::<H, P, A>::free_psram_source,
            (builder, psram),
            with_psram,
        ),
        call_ensures(
            GpioViewerBuilder::<H, P, A>::analog_source,
            (builder, analog),
            with_analog,
        ),
    ensures
        with_heap.configured().free_heap_source == Some(heap),
        with_heap.configured().free_psram_source == builder.configured().free_psram_source,
        with_heap.configured().analog_source == builder.configured().analog_source,
        with_psram.configured().free_psram_source == Some(psram),
        with_psram.configured().free_heap_source == builder.configured().free_heap_source,
        with_psram.configured().analog_source == builder.configured().analog_source,
        with_analog.configured().analog_source == Some(analog),
        with_analog.configured().free_heap_source == builder.configured().free_heap_source,
        with_analog.configured().free_psram_source == builder.configured().free_psram_source,
        forall|other: GpioViewerBuilder<H, P, A>|
            other == with_heap || other == with_psram || other == with_analog ==> {
                &&& (#[trigger] other.configured()).port == builder.configured().port
                &&& other.configured().sampling_interval_ms
                    == builder.configured().sampling_interval_ms
                &&& other.configured().release@ == builder.configured().release@
                &&& other.configured().pins@ == builder.configured().pins@
            },
{
}

/// A new viewer samples every 100 milliseconds, listens on port 8080, is of release 1.7.1 and has
/// neither pins nor sources, and building it keeps what it was configured with.
pub proof fn viewers_are_built_as_configured<H, P, A>(
    fresh: GpioViewerBuilder<H, P, A>,
    builder: GpioViewerBuilder<H, P, A>,
    r: GpioViewer<H, P, A>,
)
    requires
        call_ensures(GpioViewer::<H, P, A>::builder, (), fresh),
        call_ensures(GpioViewerBuilder::<H, P, A>::build, (builder,), r),
    ensures
        fresh.configured().sampling_interval_ms == 100,
        fresh.configured().port == 8080,
        fresh.configured().release@ == "1.7.1"@,
        fresh.configured().pins@.len() == 0,
        fresh.configured().free_heap_source is None,
        fresh.configured().free_psram_source is None,
        fresh.configured().analog_source is None,
        same_but_pins(r, builder.configured()),
        r.pins@ == builder.configured().pins@,
{
}

/// A builder starts with the settings of a new viewer, however it is made.
pub proof fn builders_start_alike<H, P, A>(
    fresh: GpioViewerBuilder<H, P, A>,
    new: GpioViewerBuilder<H, P, A>,
    default: GpioViewerBuilder<H, P, A>,
)
    requires
        call_ensures(GpioViewer::<H, P, A>::builder, (), fresh),
        call_ensures(GpioViewerBuilder::<H, P, A>::new, (), new),
        call_ensures(GpioViewerBuilder::<H, P, A>::default, (), default),
    ensures
        same_but_pins(new.configured(), fresh.configured()),
        new.configured().pins@.len() == 0,
        same_but_pins(default.configured(), fresh.configured()),
        default.configured().pins@.len() == 0,
{
}

/// Copies of a viewer and of a builder have the same settings and the same pins.
pub proof fn copies_are_configured_alike<H: Copy, P: Copy, A: Copy>(
    viewer: &GpioViewer<H, P, A>,
    r: GpioViewer<H, P, A>,
    builder: &GpioViewerBuilder<H, P, A>,
    copy: GpioViewerBuilder<H, P, A>,
)
    requires
        call_ensures(GpioViewer::<H, P, A>::clone, (viewer,), r),
        call_ensures(GpioViewerBuilder::<H, P, A>::clone, (builder,), copy),
    ensures
        same_but_pins(r, *viewer),
        r.pins@ == viewer.pins@,
        same_but_pins(copy.configured(), builder.configured()),
        copy.configured().pins@ == builder.configured().pins@,
{
}

/// Whether these are the ADC pins and the touch pins of a chip, each list in ascending order.
pub open spec fn are_pins_of(chip: Chip, adc: Seq<u8>, touch: Seq<u8>) -> bool {
    if chip == Chip::Esp32S3 {
        &&& adc == Seq::new(20, |i: int| (i + 1) as u8)
        &&& touch == Seq::new(14, |i: int| (i + 1) as u8)
    } else {
        &&& adc == seq![0u8, 2, 4] + Seq::new(4, |i: int| (i + 12) as u8) + Seq::new(
            3,
            |i: int| (i + 25) as u8,
        ) + Seq::new(8, |i: int| (i + 32) as u8)
        &&& touch == seq![0u8, 2, 4] + Seq::new(4, |i: int| (i + 12) as u8) + seq![27u8, 32, 33]
    }
}

/// The lists of a chip are its pins.
pub proof fn lemma_pins_of(chip: Chip)
    ensures
        are_pins_of(chip, chip.spec_adc_pins(), chip.spec_touch_pins()),
{
    let adc = chip.spec_adc_pins();
    let touch = chip.spec_touch_pins();
    if chip == Chip::Esp32S3 {
        assert(adc =~= Seq::new(20, |i: int| (i + 1) as u8));
        assert(touch =~= Seq::new(14, |i: int| (i + 1) as u8));
    } else {
        assert(adc =~= seq![0u8, 2, 4] + Seq::new(4, |i: int| (i + 12) as u8) + Seq::new(
            3,
            |i: int| (i + 25) as u8,
        ) + Seq::new(8, |i: int| (i + 32) as u8));
        assert(touch =~= seq![0u8, 2, 4] + Seq::new(4, |i: int| (i + 12) as u8)
            + seq![27u8, 32, 33]);
    }
}

/// Chips have 40 or 49 GPIO numbers, and their own ADC pins and touch pins. Without a chip there
/// are the pins of the first one.
pub proof fn chips_have_their_pins(chip: Chip, adc: &[u8], touch: &[u8], gpios: u8)
    requires
        call_ensures(Chip::adc_pins, (chip,), adc),
        call_ensures(Chip::touch_pins, (chip,), touch),
        call_ensures(Chip::max_gpio_pins, (chip,), gpios),
    ensures
        gpios == (if chip == Chip::Esp32 {
            40int
        } else {
            49
        }),
        are_pins_of(chip, adc@, touch@),
{
    lemma_pins_of(chip);
}

/// The chips have two cores and their radios, and nothing is known without one.
pub proof fn chips_are_known(chip: Chip, model: &str, cores: u32, features: &[&str])
    requires
        call_ensures(Chip::model, (chip,), model),
        call_ensures(Chip::cores, (chip,), cores),
        call_ensures(Chip::features, (chip,), features),
    ensures
        chip == Chip::Esp32 ==> model@ == "ESP32"@,
        chip == Chip::Esp32S3 ==> model@ == "ESP32-S3"@,
        chip == Chip::Host ==> model@ == "unknown"@,
        cores == (if chip == Chip::Host {
            0int
        } else {
            2
        }),
        chip == Chip::Host ==> features@.len() == 0,
        chip == Chip::Esp32 ==> features@.len() == 3 && features@[2]@ == "BT"@,
        chip == Chip::Esp32S3 ==> features@.len() == 2,
        chip != Chip::Host ==> features@[0]@ == "WiFi"@ && features@[1]@ == "BLE"@,
{
    let names = features@.map_values(|name: &str| name@);
    assert(names.len() == features@.len());
    assert(forall|i: int| 0 <= i < names.len() ==> #[trigger] names[i] == features@[i]@);
}

/// Six bytes of a MAC address are packed with the first in the highest place.
pub proof fn macs_are_packed_first_byte_highest(bytes: &[u8], r: u64)
    requires
        call_ensures(hwinfo::pack_mac, (bytes,), r),
    ensures
        bytes@.len() >= 6 ==> r == bytes@[0] * 0x100_0000_0000 + bytes@[1] * 0x1_0000_0000
            + bytes@[2] * 0x100_0000 + bytes@[3] * 0x1_0000 + bytes@[4] * 0x100 + bytes@[5],
        bytes@.len() == 0 ==> r == 0,
        bytes@.len() == 1 ==> r == bytes@[0],
{
    reveal_with_fuel(hwinfo::big_endian, 7);
    let first = crate::fixed::first_items(bytes@, 6);
    if bytes@.len() >= 6 {
        assert(first.len() == 6);
        assert(forall|i: int| 0 <= i < 6 ==> first[i] == bytes@[i]);
        let five = first.drop_last();
        let four = five.drop_last();
        let three = four.drop_last();
        let two = three.drop_last();
        let one = two.drop_last();
        assert(one.drop_last().len() == 0);
        assert(hwinfo::big_endian(one.drop_last()) == 0);
        assert(hwinfo::big_endian(one) == bytes@[0]);
        assert(hwinfo::big_endian(two) == bytes@[0] * 0x100 + bytes@[1]);
        assert(hwinfo::big_endian(three) == bytes@[0] * 0x1_0000 + bytes@[1] * 0x100 + bytes@[2]);
        assert(hwinfo::big_endian(four) == bytes@[0] * 0x100_0000 + bytes@[1] * 0x1_0000 + bytes@[2]
            * 0x100 + bytes@[3]);
        assert(hwinfo::big_endian(five) == bytes@[0] * 0x1_0000_0000 + bytes@[1] * 0x100_0000
            + bytes@[2] * 0x1_0000 + bytes@[3] * 0x100 + bytes@[4]);
    } else if bytes@.len() == 1 {
        assert(first.drop_last().len() == 0);
        assert(hwinfo::big_endian(first.drop_last()) == 0);
    }
}

/// No bytes are packed as zero, each of the first six bytes takes a place behind those before it,
/// and further bytes do not count.
pub proof fn macs_are_packed_byte_by_byte(
    bytes: &[u8],
    longer: &[u8],
    byte: u8,
    r: u64,
    longer_r: u64,
)
    requires
        call_ensures(hwinfo::pack_mac, (bytes,), r),
        call_ensures(hwinfo::pack_mac, (longer,), longer_r),
        longer@ == bytes@.push(byte),
    ensures
        bytes@.len() == 0 ==> r == 0,
        bytes@.len() < 6 ==> longer_r == r * 256 + byte,
        bytes@.len() >= 6 ==> longer_r == r,
{
    let first = crate::fixed::first_items(bytes@, 6);
    let longer_first = crate::fixed::first_items(longer@, 6);
    if bytes@.len() < 6 {
        assert(longer_first.drop_last() =~= first);
    } else {
        assert(longer_first =~= first);
    }
}

/// Where there is no chip, nothing is known of it.
pub proof fn nothing_is_known_without_a_chip(r: Hardware)
    requires
        call_ensures(Hardware::unknown, (), r),
    ensures
        r.cpu_frequency == 0,
        r.chip_revision == 0,
        r.mac == 0,
        r.reset_code == 0,
        r.up_time == 0,
        r.uptime_us == 0,
{
}

/// Each reset has its name, and codes that no reset has are unknown.
pub proof fn resets_have_their_names(code: i32, r: &str)
    requires
        call_ensures(hwinfo::reset_reason_name, (code,), r),
    ensures
        code == 0x01 ==> r@ == "POWERON_RESET"@,
        code == 0x03 ==> r@ == "SW_RESET"@,
        code == 0x05 ==> r@ == "DEEPSLEEP_RESET"@,
        code == 0x06 ==> r@ == "SDIO_RESET"@,
        code == 0x07 ==> r@ == "TG0WDT_SYS_RESET"@,
        code == 0x08 ==> r@ == "TG1WDT_SYS_RESET"@,
        code == 0x09 ==> r@ == "RTCWDT_SYS_RESET"@,
        code == 0x0B ==> r@ == "TG0WDT_CPU_RESET"@,
        code == 0x0C ==> r@ == "SW_CPU_RESET"@,
        code == 0x0D ==> r@ == "RTCWDT_CPU_RESET"@,
        code == 0x0E ==> r@ == "EXT_CPU_RESET"@,
        code == 0x0F ==> r@ == "BROWNOUT_RESET"@,
        code == 0x10 ==> r@ == "RTCWDT_RTC_RESET"@,
        code == 0x11 ==> r@ == "TG1WDT_CPU_RESET"@,
        code == 0x12 ==> r@ == "SUPER_WDT_RESET"@,
        code == 0x13 ==> r@ == "CLK_GLITCH_RESET"@,
        code == 0x14 ==> r@ == "EFUSE_RESET"@,
        code < 1 || code == 2 || code == 4 || code == 0x0A || code > 0x14 ==> r@ == "UNKNOWN"@,
{
}

/// One partition more in the table stands behind all others if it holds no data, and between those
/// that do and those that do not if it does.
pub proof fn partitions_keep_their_order<'a>(
    table: Seq<PartitionInfo<'a>>,
    partition: PartitionInfo<'a>,
)
    ensures
        hwinfo::data_first(Seq::<PartitionInfo<'a>>::empty()).len() == 0,
        partition.ptype != 1 ==> hwinfo::data_first(table.push(partition)) == hwinfo::data_first(
            table,
        ).push(partition),
        partition.ptype == 1 ==> exists|at: int|
            {
                &&& 0 <= at <= table.len()
                &&& hwinfo::data_first(table.push(partition)) == #[trigger] hwinfo::data_first(
                    table,
                ).insert(at, partition)
                &&& forall|i: int|
                    0 <= i < at ==> (#[trigger] hwinfo::data_first(table)[i]).ptype == 1
                &&& forall|i: int|
                    at <= i < table.len() ==> (#[trigger] hwinfo::data_first(table)[i]).ptype != 1
            },
{
    let data = |partition: PartitionInfo<'a>| hwinfo::is_data(partition) == true;
    let others = |partition: PartitionInfo<'a>| hwinfo::is_data(partition) == false;
    let a = hwinfo::partitions_with(table, true);
    let b = hwinfo::partitions_with(table, false);
    assert(hwinfo::data_first(Seq::<PartitionInfo<'a>>::empty()).len() == 0) by {
        reveal(Seq::filter);
    }
    table.lemma_filter_push(partition, data);
    table.lemma_filter_push(partition, others);
    hwinfo::ordering_keeps_every_partition(table);
    if partition.ptype != 1 {
        assert(a + b.push(partition) =~= (a + b).push(partition));
    } else {
        let at = a.len() as int;
        assert(a.push(partition) + b =~= (a + b).insert(at, partition));
        assert forall|i: int| 0 <= i < at implies (#[trigger] hwinfo::data_first(table)[i]).ptype
            == 1 by {
            table.lemma_filter_pred(data, i);
        }
        assert forall|i: int| at <= i < table.len() implies (#[trigger] hwinfo::data_first(
            table,
        )[i]).ptype != 1 by {
            table.lemma_filter_pred(others, i - at);
        }
    }
}

/// The partitions of a table are taken over in their order as far as there is room, and a table
/// that could not be read gives an error and no partitions.
pub proof fn partitions_are_taken_over<'a, const N: usize>(
    table: Option<&[PartitionInfo<'a>]>,
    out: &mut FixedVec<PartitionInfo<'a>, N>,
    r: Result<usize, PartitionReadError>,
)
    requires
        call_ensures(hwinfo::read_partition_infos::<N>, (table, out), r),
    ensures
        table is None ==> r is Err && final(out)@.len() == 0,
        table matches Some(table) ==> {
            let ordered = hwinfo::data_first(table@);
            let count = if table@.len() < N {
                table@.len() as int
            } else {
                N as int
            };
            &&& r matches Ok(length) && length == count
            &&& final(out)@ == ordered.take(count)
        },
{
    if let Some(table) = table {
        hwinfo::ordering_keeps_every_partition(table@);
        let ordered = hwinfo::data_first(table@);
        assert(ordered.take(ordered.len() as int) =~= ordered);
    }
}

/// Whether this is what is known of a chip: its name, cores and features, its readings, and the
/// free memory. What nothing tells is not available, zero or absent.
pub open spec fn is_known_of(
    info: EspInfo,
    chip: Chip,
    hardware: Hardware,
    free_heap: u32,
    free_psram: Option<u32>,
) -> bool {
    &&& info.chip_model@ == (match chip {
        Chip::Esp32 => "ESP32"@,
        Chip::Esp32S3 => "ESP32-S3"@,
        Chip::Host => "unknown"@,
    })
    &&& info.cores_count == (if chip == Chip::Host {
        0int
    } else {
        2
    })
    &&& info.chip_features@.len() == (match chip {
        Chip::Esp32 => 3int,
        Chip::Esp32S3 => 2,
        Chip::Host => 0,
    })
    &&& chip != Chip::Host ==> info.chip_features@[0]@ == "WiFi"@ && info.chip_features@[1]@
        == "BLE"@
    &&& chip == Chip::Esp32 ==> info.chip_features@[2]@ == "BT"@
    &&& info.chip_revision == hardware.chip_revision
    &&& info.cpu_frequency == hardware.cpu_frequency
    &&& info.mac == hardware.mac
    &&& info.up_time == hardware.up_time
    &&& info.uptime_us == hardware.uptime_us
    &&& info.reset_reason_code == hardware.reset_code
    &&& info.reset_reason@ == hwinfo::reset_name(hardware.reset_code)
    &&& info.free_heap == free_heap
    &&& info.free_psram == (match free_psram {
        Some(bytes) => bytes as int,
        None => 0,
    })
    &&& info.flash_mode@ == "n/a"@
    &&& info.arduino_core_version@ == "n/a"@
    &&& info.sdk_version@ == "esp-hal 1.0"@
    &&& info.idf_version is None
    &&& info.sketch_md5 is None
    &&& info.temperature_c is None
    &&& info.cycle_count == 0
    &&& info.flash_chip_size == 0
    &&& info.flash_chip_speed == 0
    &&& info.heap_size == 0
    &&& info.heap_max_alloc == 0
    &&& info.psram_size == 0
    &&& info.psram_max_alloc == 0
    &&& info.heap_free_8bit == 0
    &&& info.heap_free_32bit == 0
    &&& info.heap_largest_free_block == 0
    &&& info.sketch_size == 0
    &&& info.free_sketch == 0
}

/// Information on a chip is what is known of it.
pub proof fn lemma_information_is_known(
    info: EspInfo,
    chip: Chip,
    hardware: Hardware,
    free_heap: u32,
    free_psram: Option<u32>,
)
    requires
        hwinfo::informs_on(info, chip, hardware, free_heap, free_psram),
    ensures
        is_known_of(info, chip, hardware, free_heap, free_psram),
{
    let shown = info.chip_features@.map_values(|name: &str| name@);
    assert(shown.len() == info.chip_features@.len());
    assert(forall|i: int|
        0 <= i < shown.len() ==> (#[trigger] info.chip_features@[i])@ == shown[i]);
}

/// What is known of a chip comes from its readings and from the firmware.
pub proof fn information_comes_from_the_readings(
    chip: Chip,
    hardware: Hardware,
    free_heap: u32,
    free_psram: Option<u32>,
    info: EspInfo<'static>,
    reset_name: &str,
)
    requires
        call_ensures(hwinfo::espinfo_of, (chip, hardware, free_heap, free_psram), info),
        call_ensures(hwinfo::reset_reason_name, (hardware.reset_code,), reset_name),
    ensures
        is_known_of(info, chip, hardware, free_heap, free_psram),
        info.reset_reason@ == reset_name@,
{
    lemma_information_is_known(info, chip, hardware, free_heap, free_psram);
}

/// Without a chip, only the free heap and PSRAM are known.
pub proof fn only_memory_is_known_without_a_chip(
    free_heap: u32,
    free_psram: Option<u32>,
    info: EspInfo<'static>,
)
    requires
        call_ensures(hwinfo::espinfo, (free_heap, free_psram), info),
    ensures
        info.free_heap == free_heap,
        free_psram matches Some(bytes) ==> info.free_psram == bytes,
        free_psram is None ==> info.free_psram == 0,
        info.chip_model@ == "unknown"@,
        info.cores_count == 0,
        info.chip_revision == 0,
        info.cpu_frequency == 0,
        info.mac == 0,
        info.up_time == 0,
        info.uptime_us == 0,
        info.reset_reason_code == 0,
        info.chip_features@.len() == 0,
{
    assert(info.chip_features@.map_values(|name: &str| name@).len() == info.chip_features@.len());
}

} // verus!
