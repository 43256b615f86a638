use esp_gpio_viewer::capabilities::Chip;
use esp_gpio_viewer::fixed::FixedVec;
use esp_gpio_viewer::hwinfo::{
    espinfo, espinfo_of, pack_mac, read_partition_infos, reset_reason_name, Hardware,
    PartitionReadError,
};
use esp_gpio_viewer::protocol::{espinfo_body, PartitionInfo};

#[test]
fn espinfo_carries_injected_heap_and_psram() {
    let info = espinfo(200_000, Some(4_194_304));
    assert_eq!(info.free_heap, 200_000);
    assert_eq!(info.free_psram, 4_194_304);
    assert_eq!(info.psram_size, 0);
}

#[test]
fn espinfo_absent_psram_is_zero() {
    let info = espinfo(1_000, None);
    assert_eq!(info.free_psram, 0);
}

#[test]
fn reset_reason_names_cover_common_codes() {
    assert_eq!(reset_reason_name(0x01), "POWERON_RESET");
    assert_eq!(reset_reason_name(0x0C), "SW_CPU_RESET");
    assert_eq!(reset_reason_name(0x0F), "BROWNOUT_RESET");
    assert_eq!(reset_reason_name(0x99), "UNKNOWN");
}

#[test]
fn espinfo_knows_nothing_without_a_chip() {
    let info = espinfo(1, None);
    assert_eq!(info.chip_model, "unknown");
    assert_eq!(info.cores_count, 0);
    assert!(info.chip_features.is_empty());
    assert_eq!(info.mac, 0);
    assert_eq!(info.reset_reason, "UNKNOWN");
    assert_eq!(info.sdk_version, "esp-hal 1.0");
    assert_eq!(info.flash_mode, "n/a");
    assert_eq!(info.idf_version, None);
    assert_eq!(info.temperature_c, None);
}

#[test]
fn espinfo_tells_what_the_chip_tells() {
    let hardware = Hardware {
        cpu_frequency: 240,
        chip_revision: 301,
        mac: 0xA1B2_C3D4_E5F6,
        reset_code: 0x0C,
        up_time: 12,
        uptime_us: 12_345_678,
    };
    let info = espinfo_of(Chip::Esp32S3, hardware, 7, Some(8));
    assert_eq!(
        espinfo_body(&info).as_str(),
        "{\"chip_model\":\"ESP32-S3\",\"cores_count\":\"2\",\"chip_revision\":\"301\",\
         \"cpu_frequency\":\"240\",\"cycle_count\":0,\"mac\":\"177789161760246\",\
         \"flash_mode\":\"n/a\",\"flash_chip_size\":0,\"flash_chip_speed\":0,\"heap_size\":0,\
         \"heap_max_alloc\":0,\"psram_size\":0,\"free_psram\":8,\"psram_max_alloc\":0,\
         \"free_heap\":7,\"heap_free_8bit\":0,\"heap_free_32bit\":0,\
         \"heap_largest_free_block\":0,\"up_time\":\"12\",\"uptime_us\":12345678,\
         \"sketch_size\":0,\"free_sketch\":0,\"arduino_core_version\":\"n/a\",\
         \"sdk_version\":\"esp-hal 1.0\",\"chip_features\":[\"WiFi\",\"BLE\"],\
         \"reset_reason_code\":12,\"reset_reason\":\"SW_CPU_RESET\"}"
    );
}

#[test]
fn espinfo_is_served_in_full_at_the_limits() {
    let hardware = Hardware {
        cpu_frequency: u32::MAX,
        chip_revision: u32::MAX,
        mac: u64::MAX,
        reset_code: i32::MIN,
        up_time: u32::MAX,
        uptime_us: u64::MAX,
    };
    let info = espinfo_of(Chip::Esp32, hardware, u32::MAX, Some(u32::MAX));
    assert!(espinfo_body(&info)
        .as_str()
        .ends_with("\"reset_reason_code\":-2147483648,\"reset_reason\":\"UNKNOWN\"}"));
}

#[test]
fn reset_reasons_are_named() {
    let named = [
        (0x03, "SW_RESET"),
        (0x05, "DEEPSLEEP_RESET"),
        (0x06, "SDIO_RESET"),
        (0x07, "TG0WDT_SYS_RESET"),
        (0x08, "TG1WDT_SYS_RESET"),
        (0x09, "RTCWDT_SYS_RESET"),
        (0x0B, "TG0WDT_CPU_RESET"),
        (0x0D, "RTCWDT_CPU_RESET"),
        (0x0E, "EXT_CPU_RESET"),
        (0x10, "RTCWDT_RTC_RESET"),
        (0x11, "TG1WDT_CPU_RESET"),
        (0x12, "SUPER_WDT_RESET"),
        (0x13, "CLK_GLITCH_RESET"),
        (0x14, "EFUSE_RESET"),
        (0x00, "UNKNOWN"),
        (0x02, "UNKNOWN"),
        (0x15, "UNKNOWN"),
        (-1, "UNKNOWN"),
    ];
    for (code, name) in named {
        assert_eq!(reset_reason_name(code), name);
    }
}

#[test]
fn mac_is_packed_with_the_first_byte_highest() {
    assert_eq!(pack_mac(&[0xA1, 0xB2, 0xC3, 0xD4, 0xE5, 0xF6]), 0xA1B2_C3D4_E5F6);
    assert_eq!(pack_mac(&[0xFF; 6]), 0xFFFF_FFFF_FFFF);
    assert_eq!(pack_mac(&[1, 2, 3, 4, 5, 6, 7, 8]), 0x0102_0304_0506);
    assert_eq!(pack_mac(&[1, 2]), 0x0102);
    assert_eq!(pack_mac(&[]), 0);
}

fn partition(label: &str, ptype: u8) -> PartitionInfo<'_> {
    PartitionInfo {
        label,
        ptype,
        subtype: 0,
        address: 0,
        size: 0,
    }
}

fn labels<const N: usize>(partitions: &FixedVec<PartitionInfo<'static>, N>) -> Vec<&'static str> {
    partitions.as_slice().iter().map(|p| p.label).collect()
}

#[test]
fn data_partitions_come_first() {
    let table = [
        partition("app0", 0),
        partition("nvs", 1),
        partition("app1", 0),
        partition("other", 2),
        partition("otadata", 1),
    ];
    let mut out: FixedVec<PartitionInfo, 8> = FixedVec::new();
    let _ = out.push(partition("stale", 0));
    assert_eq!(read_partition_infos(Some(&table[..]), &mut out), Ok(5));
    assert_eq!(labels(&out), ["nvs", "otadata", "app0", "app1", "other"]);
}

#[test]
fn partitions_without_room_are_dropped() {
    let table = [
        partition("app0", 0),
        partition("nvs", 1),
        partition("app1", 0),
        partition("otadata", 1),
    ];
    let mut out: FixedVec<PartitionInfo, 3> = FixedVec::new();
    assert_eq!(read_partition_infos(Some(&table[..]), &mut out), Ok(3));
    assert_eq!(labels(&out), ["nvs", "otadata", "app0"]);
    let mut out: FixedVec<PartitionInfo, 1> = FixedVec::new();
    assert_eq!(read_partition_infos(Some(&table[..]), &mut out), Ok(1));
    assert_eq!(labels(&out), ["nvs"]);
}

#[test]
fn unreadable_partition_table_is_an_error() {
    let mut out: FixedVec<PartitionInfo, 8> = FixedVec::new();
    let _ = out.push(partition("stale", 0));
    assert_eq!(
        read_partition_infos(None, &mut out),
        Err(PartitionReadError::ReadFailed)
    );
    assert!(out.is_empty());
}
