//! What the buffers are large enough for: the bodies that are always served in full.

use crate::capabilities::Chip;
use crate::hwinfo;
use crate::hwinfo::Hardware;
use crate::pin::RegisteredPin;
use crate::protocol;
use crate::protocol::{EspInfo, PartitionInfo};
use crate::reader;
use crate::sampler;
use crate::sampler::PinChange;
use crate::server;
use crate::text;
use crate::value::PinReading;
use crate::viewer;
use vstd::prelude::*;
use vstd::string::*;

verus! {

/// The index page fits for every address, port and free sketch RAM that a server can hold.
pub proof fn index_page_fits(ip: Seq<char>, port: u16, free_sketch_ram: Seq<char>)
    requires
        text::utf8_len(ip) <= 15,
        text::utf8_len(free_sketch_ram) <= 16,
    ensures
        text::utf8_len(protocol::index_page(ip, port as nat, free_sketch_ram)) <= 1024,
{
    broadcast use text::lemma_utf8_len_concat;

    reveal_strlit("<!DOCTYPE html><html lang='en'><head><meta charset='UTF-8'>");
    reveal_strlit("<base href ='");
    reveal_strlit(
        "https://thelastoutpostworkshop.github.io/microcontroller_devkit/gpio_viewer_1_5/",
    );
    reveal_strlit("'>");
    reveal_strlit(
        "<link rel='icon' href='favicon.ico'><meta name='viewport' content='width=device-width, initial-scale=1.0'><title>GPIOViewer</title>",
    );
    reveal_strlit("<script type='module' crossorigin src='GPIOViewerVue.js'></script>");
    reveal_strlit(
        "<link rel='stylesheet' crossorigin href='assets/main.css'></head><body><div id='app'></div>",
    );
    reveal_strlit("<script>window.gpio_settings = {ip:'");
    reveal_strlit("',port:'");
    reveal_strlit("',freeSketchRam:'");
    reveal_strlit("'};</script>");
    reveal_strlit("</body></html>");
    text::lemma_utf8_len_ascii("<!DOCTYPE html><html lang='en'><head><meta charset='UTF-8'>"@);
    text::lemma_utf8_len_ascii("<base href ='"@);
    text::lemma_utf8_len_ascii(protocol::BASE_URL@);
    text::lemma_utf8_len_ascii("'>"@);
    text::lemma_utf8_len_ascii(
        "<link rel='icon' href='favicon.ico'><meta name='viewport' content='width=device-width, initial-scale=1.0'><title>GPIOViewer</title>"@,
    );
    text::lemma_utf8_len_ascii(
        "<script type='module' crossorigin src='GPIOViewerVue.js'></script>"@,
    );
    text::lemma_utf8_len_ascii(
        "<link rel='stylesheet' crossorigin href='assets/main.css'></head><body><div id='app'></div>"@,
    );
    text::lemma_utf8_len_ascii("<script>window.gpio_settings = {ip:'"@);
    text::lemma_utf8_len_ascii("',port:'"@);
    text::lemma_utf8_len_ascii("',freeSketchRam:'"@);
    text::lemma_utf8_len_ascii("'};</script>"@);
    text::lemma_utf8_len_ascii("</body></html>"@);
    text::lemma_decimal_sizes(port as nat);
}

/// `/release` fits for every release string that a viewer can hold.
pub proof fn release_fits(release: Seq<char>)
    requires
        text::utf8_len(release) <= viewer::RELEASE_CAP,
    ensures
        text::utf8_len(protocol::release_text(release)) <= 64,
{
    broadcast use text::lemma_utf8_len_concat;

    reveal_strlit("{\"release\": \"");
    reveal_strlit("\"}");
    text::lemma_utf8_len_ascii("{\"release\": \""@);
    text::lemma_utf8_len_ascii("\"}"@);
}

/// `/pinmodes` fits for every registry.
pub proof fn pinmodes_fit(pins: Seq<RegisteredPin>)
    requires
        pins.len() <= viewer::MAX_REGISTERED_PINS,
    ensures
        text::utf8_len(protocol::pinmodes_text(viewer::pinmode_pairs_of(pins))) <= 2048,
{
    broadcast use text::lemma_utf8_len_concat;

    reveal_strlit("{\"pin\":\"");
    reveal_strlit("\",\"mode\":\"");
    reveal_strlit("\"}");
    reveal_strlit("[");
    reveal_strlit(",");
    reveal_strlit("]");
    text::lemma_utf8_len_ascii("{\"pin\":\""@);
    text::lemma_utf8_len_ascii("\",\"mode\":\""@);
    text::lemma_utf8_len_ascii("\"}"@);
    text::lemma_utf8_len_ascii("["@);
    text::lemma_utf8_len_ascii(","@);
    text::lemma_utf8_len_ascii("]"@);
    let pairs = viewer::pinmode_pairs_of(pins);
    let entries = protocol::pinmode_entries(pairs);
    assert forall|i: int| 0 <= i < entries.len() implies text::utf8_len(#[trigger] entries[i])
        <= 26 by {
        text::lemma_decimal_sizes(pairs[i].0 as nat);
        text::lemma_decimal_sizes(pairs[i].1 as nat);
    }
    text::lemma_joined_len(entries, ","@, 26);
    assert(entries.len() * (26 + 1) <= 48 * 27) by (nonlinear_arith)
        requires
            entries.len() <= 48,
    ;
}

/// A `gpio-state` payload fits for as many pins as can be registered, whatever they show, if
/// their GPIO numbers have at most two digits, as those of every chip do.
pub proof fn gpio_state_fits(changes: Seq<PinChange>)
    requires
        changes.len() <= viewer::MAX_REGISTERED_PINS,
        forall|i: int|
            0 <= i < changes.len() ==> {
                &&& (#[trigger] changes[i]).0 < 100
                &&& changes[i].1 <= 256
                &&& changes[i].2 <= 0x0fff_ffff
                &&& changes[i].3 <= 2
            },
    ensures
        text::utf8_len(protocol::gpio_state_text(changes)) <= 2048,
{
    broadcast use text::lemma_utf8_len_concat;

    reveal_strlit("\"");
    reveal_strlit("\": {\"s\": ");
    reveal_strlit(", \"v\": ");
    reveal_strlit(", \"t\": ");
    reveal_strlit("}");
    reveal_strlit("{");
    reveal_strlit(", ");
    text::lemma_utf8_len_ascii("\""@);
    text::lemma_utf8_len_ascii("\": {\"s\": "@);
    text::lemma_utf8_len_ascii(", \"v\": "@);
    text::lemma_utf8_len_ascii(", \"t\": "@);
    text::lemma_utf8_len_ascii("}"@);
    text::lemma_utf8_len_ascii("{"@);
    text::lemma_utf8_len_ascii(", "@);
    reveal_with_fuel(text::power_of_ten, 3);
    let entries = protocol::gpio_state_entries(changes);
    assert forall|i: int| 0 <= i < entries.len() implies text::utf8_len(#[trigger] entries[i])
        <= 40 by {
        text::lemma_decimal_len(changes[i].0 as nat, 2);
        text::lemma_decimal_sizes(changes[i].1 as nat);
        text::lemma_decimal_sizes(changes[i].2 as nat);
        assert(text::decimal(changes[i].3 as nat).len() == 1);
        text::lemma_decimal_ascii(changes[i].3 as nat);
        text::lemma_utf8_len_ascii(text::decimal(changes[i].3 as nat));
    }
    text::lemma_joined_len(entries, ", "@, 40);
    assert(entries.len() * (40 + 2) <= 48 * 42) by (nonlinear_arith)
        requires
            entries.len() <= 48,
    ;
}

/// `/partition` fits for up to 21 partitions, whose labels take up to 16 bytes.
pub proof fn partitions_fit(partitions: Seq<PartitionInfo>)
    requires
        partitions.len() <= 21,
        forall|i: int|
            0 <= i < partitions.len() ==> text::utf8_len((#[trigger] partitions[i]).label@) <= 16,
    ensures
        text::utf8_len(protocol::partition_text(partitions)) <= 2048,
{
    broadcast use text::lemma_utf8_len_concat;

    reveal_strlit("{\"label\":\"");
    reveal_strlit("\",\"type\":");
    reveal_strlit(",\"subtype\":");
    reveal_strlit(",\"address\":\"0x");
    reveal_strlit("\",\"size\":");
    reveal_strlit("}");
    reveal_strlit("[");
    reveal_strlit(",");
    reveal_strlit("]");
    text::lemma_utf8_len_ascii("{\"label\":\""@);
    text::lemma_utf8_len_ascii("\",\"type\":"@);
    text::lemma_utf8_len_ascii(",\"subtype\":"@);
    text::lemma_utf8_len_ascii(",\"address\":\"0x"@);
    text::lemma_utf8_len_ascii("\",\"size\":"@);
    text::lemma_utf8_len_ascii("}"@);
    text::lemma_utf8_len_ascii("["@);
    text::lemma_utf8_len_ascii(","@);
    text::lemma_utf8_len_ascii("]"@);
    let entries = protocol::partition_entries(partitions);
    assert forall|i: int| 0 <= i < entries.len() implies text::utf8_len(#[trigger] entries[i])
        <= 95 by {
        text::lemma_decimal_sizes(partitions[i].ptype as nat);
        text::lemma_decimal_sizes(partitions[i].subtype as nat);
        text::lemma_hexadecimal_size(partitions[i].address);
        text::lemma_decimal_sizes(partitions[i].size as nat);
    }
    text::lemma_joined_len(entries, ","@, 95);
    assert(entries.len() * (95 + 1) <= 21 * 96) by (nonlinear_arith)
        requires
            entries.len() <= 21,
    ;
}

/// A group of `/pinfunctions` takes at most 31 bytes for each pin and 40 more.
proof fn lemma_pin_function_group_len(name: Seq<char>, pins: Seq<u8>)
    requires
        text::utf8_len(name) <= 5,
    ensures
        text::utf8_len(protocol::pin_function_group(name, pins)) <= pins.len() * 31 + 40,
{
    broadcast use text::lemma_utf8_len_concat;

    reveal_strlit("{\"function\":\"");
    reveal_strlit("\",\"pin\":");
    reveal_strlit("}");
    reveal_strlit("{\"name\":\"");
    reveal_strlit("\", \"functions\":[");
    reveal_strlit(",");
    reveal_strlit("]}");
    text::lemma_utf8_len_ascii("{\"function\":\""@);
    text::lemma_utf8_len_ascii("\",\"pin\":"@);
    text::lemma_utf8_len_ascii("}"@);
    text::lemma_utf8_len_ascii("{\"name\":\""@);
    text::lemma_utf8_len_ascii("\", \"functions\":["@);
    text::lemma_utf8_len_ascii(","@);
    text::lemma_utf8_len_ascii("]}"@);
    let entries = protocol::pin_function_entries(name, pins);
    assert forall|i: int| 0 <= i < entries.len() implies text::utf8_len(#[trigger] entries[i])
        <= 30 by {
        text::lemma_decimal_sizes(pins[i] as nat);
    }
    text::lemma_joined_len(entries, ","@, 30);
}

/// `/pinfunctions` fits for every chip.
pub proof fn pinfunctions_fit(chip: Chip)
    ensures
        text::utf8_len(
            protocol::pinfunctions_text(chip.spec_adc_pins(), chip.spec_touch_pins()),
        ) <= 2048,
{
    broadcast use text::lemma_utf8_len_concat;

    reveal_strlit("ADC");
    reveal_strlit("Touch");
    reveal_strlit("{\"boardpinsfunction\":[");
    reveal_strlit(",");
    reveal_strlit("]}");
    text::lemma_utf8_len_ascii("ADC"@);
    text::lemma_utf8_len_ascii("Touch"@);
    text::lemma_utf8_len_ascii("{\"boardpinsfunction\":["@);
    text::lemma_utf8_len_ascii(","@);
    text::lemma_utf8_len_ascii("]}"@);
    lemma_pin_function_group_len("ADC"@, chip.spec_adc_pins());
    lemma_pin_function_group_len("Touch"@, chip.spec_touch_pins());
}

/// Whether a field of `/espinfo` takes at most 52 bytes.
#[verifier::opaque]
spec fn is_short(field: Seq<char>) -> bool {
    text::utf8_len(field) <= 52
}

/// Whether a key of `/espinfo` takes at most 23 bytes.
#[verifier::opaque]
spec fn is_short_key(key: Seq<char>) -> bool {
    text::utf8_len(key) <= 23
}

/// Whether a value of `/espinfo` takes at most 24 bytes.
#[verifier::opaque]
spec fn is_short_value(value: Seq<char>) -> bool {
    text::utf8_len(value) <= 24
}

/// A field with a key of up to 23 bytes and a value of up to 24 takes at most 52.
proof fn lemma_field_len(key: Seq<char>, value: Seq<char>)
    requires
        is_short_key(key),
        is_short_value(value),
    ensures
        is_short(protocol::raw_field(key, value)),
        is_short(protocol::quoted_field(key, value)),
{
    broadcast use text::lemma_utf8_len_concat;

    reveal(is_short);
    reveal(is_short_key);
    reveal(is_short_value);
    reveal_strlit("\"");
    reveal_strlit("\":");
    text::lemma_utf8_len_ascii("\""@);
    text::lemma_utf8_len_ascii("\":"@);
}

/// The name of a reset code takes at most 20 bytes.
proof fn lemma_reset_name_len(code: i32)
    ensures
        text::utf8_len(hwinfo::reset_name(code)) <= 20,
{
    reveal_strlit("POWERON_RESET");
    reveal_strlit("SW_RESET");
    reveal_strlit("DEEPSLEEP_RESET");
    reveal_strlit("SDIO_RESET");
    reveal_strlit("TG0WDT_SYS_RESET");
    reveal_strlit("TG1WDT_SYS_RESET");
    reveal_strlit("RTCWDT_SYS_RESET");
    reveal_strlit("TG0WDT_CPU_RESET");
    reveal_strlit("SW_CPU_RESET");
    reveal_strlit("RTCWDT_CPU_RESET");
    reveal_strlit("EXT_CPU_RESET");
    reveal_strlit("BROWNOUT_RESET");
    reveal_strlit("RTCWDT_RTC_RESET");
    reveal_strlit("TG1WDT_CPU_RESET");
    reveal_strlit("SUPER_WDT_RESET");
    reveal_strlit("CLK_GLITCH_RESET");
    reveal_strlit("EFUSE_RESET");
    reveal_strlit("UNKNOWN");
    text::lemma_utf8_len_ascii(hwinfo::reset_name(code));
}

/// The keys of `/espinfo` take at most 23 bytes each.
proof fn lemma_espinfo_keys()
    ensures
        is_short_key("chip_model"@),
        is_short_key("cores_count"@),
        is_short_key("chip_revision"@),
        is_short_key("cpu_frequency"@),
        is_short_key("cycle_count"@),
        is_short_key("mac"@),
        is_short_key("flash_mode"@),
        is_short_key("flash_chip_size"@),
        is_short_key("flash_chip_speed"@),
        is_short_key("heap_size"@),
        is_short_key("heap_max_alloc"@),
        is_short_key("psram_size"@),
        is_short_key("free_psram"@),
        is_short_key("psram_max_alloc"@),
        is_short_key("free_heap"@),
        is_short_key("heap_free_8bit"@),
        is_short_key("heap_free_32bit"@),
        is_short_key("heap_largest_free_block"@),
        is_short_key("up_time"@),
        is_short_key("uptime_us"@),
        is_short_key("sketch_size"@),
        is_short_key("free_sketch"@),
        is_short_key("arduino_core_version"@),
        is_short_key("sdk_version"@),
        is_short_key("chip_features"@),
        is_short_key("reset_reason_code"@),
        is_short_key("reset_reason"@),
{
    reveal(is_short_key);
    reveal_strlit("chip_model");
    reveal_strlit("cores_count");
    reveal_strlit("chip_revision");
    reveal_strlit("cpu_frequency");
    reveal_strlit("cycle_count");
    reveal_strlit("mac");
    reveal_strlit("flash_mode");
    reveal_strlit("flash_chip_size");
    reveal_strlit("flash_chip_speed");
    reveal_strlit("heap_size");
    reveal_strlit("heap_max_alloc");
    reveal_strlit("psram_size");
    reveal_strlit("free_psram");
    reveal_strlit("psram_max_alloc");
    reveal_strlit("free_heap");
    reveal_strlit("heap_free_8bit");
    reveal_strlit("heap_free_32bit");
    reveal_strlit("heap_largest_free_block");
    reveal_strlit("up_time");
    reveal_strlit("uptime_us");
    reveal_strlit("sketch_size");
    reveal_strlit("free_sketch");
    reveal_strlit("arduino_core_version");
    reveal_strlit("sdk_version");
    reveal_strlit("chip_features");
    reveal_strlit("reset_reason_code");
    reveal_strlit("reset_reason");
    text::lemma_utf8_len_ascii("chip_model"@);
    text::lemma_utf8_len_ascii("cores_count"@);
    text::lemma_utf8_len_ascii("chip_revision"@);
    text::lemma_utf8_len_ascii("cpu_frequency"@);
    text::lemma_utf8_len_ascii("cycle_count"@);
    text::lemma_utf8_len_ascii("mac"@);
    text::lemma_utf8_len_ascii("flash_mode"@);
    text::lemma_utf8_len_ascii("flash_chip_size"@);
    text::lemma_utf8_len_ascii("flash_chip_speed"@);
    text::lemma_utf8_len_ascii("heap_size"@);
    text::lemma_utf8_len_ascii("heap_max_alloc"@);
    text::lemma_utf8_len_ascii("psram_size"@);
    text::lemma_utf8_len_ascii("free_psram"@);
    text::lemma_utf8_len_ascii("psram_max_alloc"@);
    text::lemma_utf8_len_ascii("free_heap"@);
    text::lemma_utf8_len_ascii("heap_free_8bit"@);
    text::lemma_utf8_len_ascii("heap_free_32bit"@);
    text::lemma_utf8_len_ascii("heap_largest_free_block"@);
    text::lemma_utf8_len_ascii("up_time"@);
    text::lemma_utf8_len_ascii("uptime_us"@);
    text::lemma_utf8_len_ascii("sketch_size"@);
    text::lemma_utf8_len_ascii("free_sketch"@);
    text::lemma_utf8_len_ascii("arduino_core_version"@);
    text::lemma_utf8_len_ascii("sdk_version"@);
    text::lemma_utf8_len_ascii("chip_features"@);
    text::lemma_utf8_len_ascii("reset_reason_code"@);
    text::lemma_utf8_len_ascii("reset_reason"@);
}

/// The features of a chip take at most 24 bytes.
proof fn lemma_feature_array_len(chip: Chip, features: Seq<&str>)
    requires
        features.map_values(|name: &str| name@) == chip.spec_features(),
    ensures
        text::utf8_len(protocol::feature_array(features)) <= 24,
{
    broadcast use text::lemma_utf8_len_concat;

    reveal_strlit("WiFi");
    reveal_strlit("BLE");
    reveal_strlit("BT");
    reveal_strlit("\"");
    reveal_strlit("[");
    reveal_strlit(",");
    reveal_strlit("]");
    text::lemma_utf8_len_ascii("WiFi"@);
    text::lemma_utf8_len_ascii("BLE"@);
    text::lemma_utf8_len_ascii("BT"@);
    text::lemma_utf8_len_ascii("\""@);
    text::lemma_utf8_len_ascii("["@);
    text::lemma_utf8_len_ascii(","@);
    text::lemma_utf8_len_ascii("]"@);
    let names = features.map_values(|name: &str| name@);
    let entries = protocol::feature_entries(features);
    assert(features.len() == names.len());
    assert forall|i: int| 0 <= i < entries.len() implies text::utf8_len(#[trigger] entries[i])
        <= 6 by {
        assert(names[i] == features[i]@);
    }
    text::lemma_joined_len(entries, ","@, 6);
    assert(entries.len() * (6 + 1) <= 21) by (nonlinear_arith)
        requires
            entries.len() <= 3,
    ;
}

/// A number of `/espinfo` makes a field of at most 52 bytes.
proof fn lemma_number_field_len(key: Seq<char>, value: u64)
    requires
        is_short_key(key),
    ensures
        is_short(protocol::raw_field(key, text::decimal(value as nat))),
        is_short(protocol::quoted_field(key, text::decimal(value as nat))),
{
    reveal(is_short_value);
    text::lemma_decimal_sizes(value as nat);
    lemma_field_len(key, text::decimal(value as nat));
}

/// The fields of `/espinfo` that are always there take at most 52 bytes each.
proof fn lemma_leading_fields_len(info: EspInfo)
    requires
        is_short_value(info.chip_model@),
        is_short_value(info.flash_mode@),
        is_short_value(info.arduino_core_version@),
        is_short_value(info.sdk_version@),
    ensures
        protocol::espinfo_leading_fields(info).len() == 24,
        forall|i: int|
            0 <= i < 24 ==> is_short(#[trigger] protocol::espinfo_leading_fields(info)[i]),
{
    lemma_espinfo_keys();
    lemma_number_field_len("cores_count"@, info.cores_count as u64);
    lemma_number_field_len("chip_revision"@, info.chip_revision as u64);
    lemma_number_field_len("cpu_frequency"@, info.cpu_frequency as u64);
    lemma_number_field_len("cycle_count"@, info.cycle_count as u64);
    lemma_number_field_len("mac"@, info.mac as u64);
    lemma_number_field_len("flash_chip_size"@, info.flash_chip_size as u64);
    lemma_number_field_len("flash_chip_speed"@, info.flash_chip_speed as u64);
    lemma_number_field_len("heap_size"@, info.heap_size as u64);
    lemma_number_field_len("heap_max_alloc"@, info.heap_max_alloc as u64);
    lemma_number_field_len("psram_size"@, info.psram_size as u64);
    lemma_number_field_len("free_psram"@, info.free_psram as u64);
    lemma_number_field_len("psram_max_alloc"@, info.psram_max_alloc as u64);
    lemma_number_field_len("free_heap"@, info.free_heap as u64);
    lemma_number_field_len("heap_free_8bit"@, info.heap_free_8bit as u64);
    lemma_number_field_len("heap_free_32bit"@, info.heap_free_32bit as u64);
    lemma_number_field_len("heap_largest_free_block"@, info.heap_largest_free_block as u64);
    lemma_number_field_len("up_time"@, info.up_time as u64);
    lemma_number_field_len("uptime_us"@, info.uptime_us as u64);
    lemma_number_field_len("sketch_size"@, info.sketch_size as u64);
    lemma_number_field_len("free_sketch"@, info.free_sketch as u64);
    lemma_field_len("chip_model"@, info.chip_model@);
    lemma_field_len("flash_mode"@, info.flash_mode@);
    lemma_field_len("arduino_core_version"@, info.arduino_core_version@);
    lemma_field_len("sdk_version"@, info.sdk_version@);
}

/// `/espinfo` fits for every chip, whatever it tells.
pub proof fn espinfo_fits(
    info: EspInfo,
    chip: Chip,
    hardware: Hardware,
    free_heap: u32,
    free_psram: Option<u32>,
)
    requires
        hwinfo::informs_on(info, chip, hardware, free_heap, free_psram),
    ensures
        text::utf8_len(protocol::espinfo_text(info)) <= 2048,
{
    reveal(is_short_value);
    lemma_texts_are_short(chip);
    lemma_espinfo_keys();
    lemma_leading_fields_len(info);
    lemma_feature_array_len(chip, info.chip_features@);
    lemma_field_len("chip_features"@, protocol::feature_array(info.chip_features@));
    lemma_signed_len(info.reset_reason_code);
    lemma_field_len(
        "reset_reason_code"@,
        text::signed_decimal(info.reset_reason_code as int),
    );
    lemma_reset_name_len(info.reset_reason_code);
    lemma_field_len("reset_reason"@, info.reset_reason@);
    let fields = protocol::espinfo_fields(info);
    let leading = protocol::espinfo_leading_fields(info);
    assert(fields.len() == 27);
    assert forall|i: int| 0 <= i < fields.len() implies is_short(#[trigger] fields[i]) by {
        if i < 24 {
            assert(fields[i] == leading[i]);
        }
    }
    lemma_short_fields_fit(fields);
}

/// Up to 27 short fields fit.
proof fn lemma_short_fields_fit(fields: Seq<Seq<char>>)
    requires
        fields.len() <= 27,
        forall|i: int| 0 <= i < fields.len() ==> is_short(#[trigger] fields[i]),
    ensures
        text::utf8_len("{"@ + text::joined(fields, ","@) + "}"@) <= 2048,
{
    broadcast use text::lemma_utf8_len_concat;

    reveal(is_short);
    reveal_strlit("{");
    reveal_strlit(",");
    reveal_strlit("}");
    text::lemma_utf8_len_ascii("{"@);
    text::lemma_utf8_len_ascii(","@);
    text::lemma_utf8_len_ascii("}"@);
    text::lemma_joined_len(fields, ","@, 52);
    assert(fields.len() * (52 + 1) <= 27 * 53) by (nonlinear_arith)
        requires
            fields.len() <= 27,
    ;
}

/// The texts that `/espinfo` always holds take at most 24 bytes.
proof fn lemma_texts_are_short(chip: Chip)
    ensures
        text::utf8_len(chip.spec_model()) <= 24,
        text::utf8_len("n/a"@) <= 24,
        text::utf8_len(hwinfo::SDK_VERSION@) <= 24,
{
    reveal_strlit("unknown");
    reveal_strlit("ESP32");
    reveal_strlit("ESP32-S3");
    reveal_strlit("n/a");
    reveal_strlit("esp-hal 1.0");
    text::lemma_utf8_len_ascii(chip.spec_model());
    text::lemma_utf8_len_ascii("n/a"@);
    text::lemma_utf8_len_ascii(hwinfo::SDK_VERSION@);
}

/// A signed number takes at most 11 bytes.
proof fn lemma_signed_len(value: i32)
    ensures
        text::utf8_len(text::signed_decimal(value as int)) <= 11,
{
    if value < 0 {
        let digits = text::decimal((-value) as nat);
        text::lemma_decimal_sizes((-value) as nat);
        text::lemma_utf8_len_ascii(seq!['-']);
        text::lemma_utf8_len_concat(seq!['-'], digits);
    } else {
        text::lemma_decimal_sizes(value as nat);
    }
}

/// Whether each reading is one of the registered pin in the same place.
pub open spec fn readings_of(pins: Seq<RegisteredPin>, readings: Seq<PinReading>) -> bool {
    &&& readings.len() == pins.len()
    &&& forall|i: int|
        0 <= i < pins.len() ==> exists|register_value: Option<u32>, sample: Option<u16>|
            #[trigger] readings[i] == #[trigger] reader::pin_reading(
                pins[i],
                register_value,
                sample,
            )
}

/// What is sent about a pin with a reading of its own is small.
proof fn lemma_change_is_small(
    pins: Seq<RegisteredPin>,
    readings: Seq<PinReading>,
    i: int,
)
    requires
        readings_of(pins, readings),
        0 <= i < pins.len(),
    ensures
        sampler::change_of(pins[i], readings[i]).1 <= 256,
        sampler::change_of(pins[i], readings[i]).2 <= 0x0fff_ffff,
        sampler::change_of(pins[i], readings[i]).3 <= 2,
{
    let (register_value, sample) = choose|register_value: Option<u32>, sample: Option<u16>|
        readings[i] == #[trigger] reader::pin_reading(pins[i], register_value, sample);
    reader::readings_are_in_range(pins[i], register_value, sample);
}

/// What is sent in a sampling cycle is complete, whatever the pins show, if their GPIO numbers
/// have at most two digits.
pub proof fn sampled_changes_fit(
    pins: Seq<RegisteredPin>,
    readings: Seq<PinReading>,
    previous: Seq<u32>,
)
    requires
        pins.len() <= viewer::MAX_REGISTERED_PINS,
        forall|i: int| 0 <= i < pins.len() ==> (#[trigger] pins[i]).pin < 100,
        readings_of(pins, readings),
    ensures
        text::utf8_len(
            protocol::gpio_state_text(sampler::changes(pins, readings, previous)),
        ) <= 2048,
{
    let sent = sampler::changes(pins, readings, previous);
    let count = sampler::comparable(pins, readings, previous);
    sampler::exactly_the_changed_pins_are_sent(pins, readings, previous);
    let positions = choose|positions: Seq<int>|
        {
            &&& sampler::ascending_below(positions, count)
            &&& #[trigger] sampler::sent_about(pins, readings, positions, sent)
        };
    sampler::changes_are_no_more_than_pins(pins, readings, previous);
    assert forall|i: int| 0 <= i < sent.len() implies {
        &&& (#[trigger] sent[i]).0 < 100
        &&& sent[i].1 <= 256
        &&& sent[i].2 <= 0x0fff_ffff
        &&& sent[i].3 <= 2
    } by {
        lemma_change_is_small(pins, readings, positions[i]);
    }
    gpio_state_fits(sent);
}

/// What is sent when a client connects is complete, whatever the pins show, if their GPIO numbers
/// have at most two digits.
pub proof fn baseline_fits(pins: Seq<RegisteredPin>, readings: Seq<PinReading>)
    requires
        pins.len() <= viewer::MAX_REGISTERED_PINS,
        forall|i: int| 0 <= i < pins.len() ==> (#[trigger] pins[i]).pin < 100,
        readings_of(pins, readings),
    ensures
        text::utf8_len(protocol::gpio_state_text(server::baseline_of(pins, readings))) <= 2048,
{
    let sent = server::baseline_of(pins, readings);
    assert forall|i: int| 0 <= i < sent.len() implies {
        &&& (#[trigger] sent[i]).0 < 100
        &&& sent[i].1 <= 256
        &&& sent[i].2 <= 0x0fff_ffff
        &&& sent[i].3 <= 2
    } by {
        lemma_change_is_small(pins, readings, i);
    }
    gpio_state_fits(sent);
}

} // verus!
