use esp_gpio_viewer::protocol::{
    espinfo_body, format_bytes, free_psram_body, free_psram_body_variant, gpio_state_body, index_html,
    partition_body, pinfunctions_body, pinmodes_body, release_body, sampling_body, EspInfo,
    PartitionInfo, BASE_URL,
};

#[test]
fn base_url_matches_reference_header() {
    assert_eq!(
        BASE_URL,
        "https://thelastoutpostworkshop.github.io/microcontroller_devkit/gpio_viewer_1_5/"
    );
}

#[test]
fn index_html_exact_bytes() {
    let html = index_html("192.168.1.50", 8080, "1.20 MB");
    assert_eq!(
        html.as_str(),
        "<!DOCTYPE html><html lang='en'><head><meta charset='UTF-8'>\
         <base href ='https://thelastoutpostworkshop.github.io/microcontroller_devkit/gpio_viewer_1_5/'>\
         <link rel='icon' href='favicon.ico'>\
         <meta name='viewport' content='width=device-width, initial-scale=1.0'>\
         <title>GPIOViewer</title>\
         <script type='module' crossorigin src='GPIOViewerVue.js'></script>\
         <link rel='stylesheet' crossorigin href='assets/main.css'>\
         </head><body><div id='app'></div>\
         <script>window.gpio_settings = {ip:'192.168.1.50',port:'8080',freeSketchRam:'1.20 MB'};</script>\
         </body></html>"
    );
}

#[test]
fn index_html_preserves_base_href_space_quirk() {
    let html = index_html("10.0.0.1", 80, "0 B");
    assert!(html.as_str().contains("<base href ='"));
    assert!(html
        .as_str()
        .contains("<base href ='https://thelastoutpostworkshop.github.io/microcontroller_devkit/gpio_viewer_1_5/'>"));
}

#[test]
fn index_html_injects_runtime_settings_verbatim() {
    let html = index_html("172.16.5.9", 9090, "512 KB");
    assert!(html.as_str().contains(
        "window.gpio_settings = {ip:'172.16.5.9',port:'9090',freeSketchRam:'512 KB'};"
    ));
}

#[test]
fn release_exact() {
    assert_eq!(release_body("1.7.1").as_str(), "{\"release\": \"1.7.1\"}");
}

#[test]
fn sampling_exact() {
    assert_eq!(sampling_body(100).as_str(), "{\"sampling\": \"100\"}");
}

#[test]
fn free_psram_some_clean_form() {
    assert_eq!(
        free_psram_body(100, Some(1536)).as_str(),
        "{\"sampling\": \"100 1.50 KB\"}"
    );
}

#[test]
fn free_psram_none_clean_form() {
    assert_eq!(
        free_psram_body(100, None).as_str(),
        "{\"sampling\": \"100 No PSRAM\"}"
    );
}

#[test]
fn format_bytes_boundaries() {
    assert_eq!(format_bytes(0).as_str(), "0 B");
    assert_eq!(format_bytes(512).as_str(), "512 B");
    assert_eq!(format_bytes(1023).as_str(), "1023 B");
    assert_eq!(format_bytes(1024).as_str(), "1.00 KB");
    assert_eq!(format_bytes(1536).as_str(), "1.50 KB");
    assert_eq!(format_bytes(1_048_576).as_str(), "1.00 MB");
}

#[test]
fn pinmodes_empty() {
    let pins: [(u8, u32); 0] = [];
    assert_eq!(pinmodes_body(&pins).as_str(), "[]");
}

#[test]
fn pinmodes_multi_entry_ordering() {
    let pins = [(2u8, 3u32), (15u8, 5u32)];
    assert_eq!(
        pinmodes_body(&pins).as_str(),
        "[{\"pin\":\"2\",\"mode\":\"3\"},{\"pin\":\"15\",\"mode\":\"5\"}]"
    );
}

#[test]
fn pinfunctions_empty_groups() {
    let adc: [u8; 0] = [];
    let touch: [u8; 0] = [];
    assert_eq!(
        pinfunctions_body(&adc, &touch).as_str(),
        "{\"boardpinsfunction\":[{\"name\":\"ADC\", \"functions\":[]},{\"name\":\"Touch\", \"functions\":[]}]}"
    );
}

#[test]
fn pinfunctions_populated_spacing() {
    let adc = [34u8, 35u8];
    let touch = [4u8];
    assert_eq!(
        pinfunctions_body(&adc, &touch).as_str(),
        "{\"boardpinsfunction\":[\
         {\"name\":\"ADC\", \"functions\":[{\"function\":\"ADC\",\"pin\":34},{\"function\":\"ADC\",\"pin\":35}]},\
         {\"name\":\"Touch\", \"functions\":[{\"function\":\"Touch\",\"pin\":4}]}]}"
    );
}

#[test]
fn partition_empty() {
    let partitions: [PartitionInfo; 0] = [];
    assert_eq!(partition_body(&partitions).as_str(), "[]");
}

#[test]
fn partition_two_entries_lowercase_hex() {
    let partitions = [
        PartitionInfo {
            label: "nvs",
            ptype: 1,
            subtype: 2,
            address: 0x9000,
            size: 20480,
        },
        PartitionInfo {
            label: "app0",
            ptype: 0,
            subtype: 16,
            address: 0x10000,
            size: 1310720,
        },
    ];
    assert_eq!(
        partition_body(&partitions).as_str(),
        "[{\"label\":\"nvs\",\"type\":1,\"subtype\":2,\"address\":\"0x9000\",\"size\":20480},\
         {\"label\":\"app0\",\"type\":0,\"subtype\":16,\"address\":\"0x10000\",\"size\":1310720}]"
    );
}

#[test]
fn gpio_state_empty() {
    let changes: [(u8, u32, u32, u8); 0] = [];
    assert_eq!(gpio_state_body(&changes).as_str(), "{}");
}

#[test]
fn gpio_state_two_pins_exact_spacing() {
    let changes = [(2u8, 256u32, 1u32, 0u8), (4u8, 127u32, 2048u32, 2u8)];
    assert_eq!(
        gpio_state_body(&changes).as_str(),
        "{\"2\": {\"s\": 256, \"v\": 1, \"t\": 0}, \"4\": {\"s\": 127, \"v\": 2048, \"t\": 2}}"
    );
}

#[test]
fn espinfo_exact_with_all_optionals() {
    let features = ["WIFI_BGN", "BLE"];
    let temperature = format!("{:.2}", 42.5f32);
    let info = EspInfo {
        chip_model: "ESP32-S3",
        cores_count: 2,
        chip_revision: 0,
        cpu_frequency: 240,
        cycle_count: 123456,
        mac: 1122334455,
        flash_mode: "QIO",
        flash_chip_size: 8388608,
        flash_chip_speed: 80000000,
        heap_size: 327680,
        heap_max_alloc: 200000,
        psram_size: 8388608,
        free_psram: 8000000,
        psram_max_alloc: 4000000,
        free_heap: 250000,
        heap_free_8bit: 250000,
        heap_free_32bit: 260000,
        heap_largest_free_block: 180000,
        up_time: 5000,
        uptime_us: 5000000,
        sketch_size: 900000,
        free_sketch: 2000000,
        arduino_core_version: "3.0.0",
        sdk_version: "v5.1.4",
        idf_version: Some("v5.1.4"),
        sketch_md5: Some("abc123"),
        chip_features: &features,
        reset_reason_code: 1,
        reset_reason: "POWERON",
        temperature_c: Some(&temperature),
    };
    assert_eq!(
        espinfo_body(&info).as_str(),
        "{\"chip_model\":\"ESP32-S3\",\"cores_count\":\"2\",\"chip_revision\":\"0\",\
         \"cpu_frequency\":\"240\",\"cycle_count\":123456,\"mac\":\"1122334455\",\
         \"flash_mode\":\"QIO\",\"flash_chip_size\":8388608,\"flash_chip_speed\":80000000,\
         \"heap_size\":327680,\"heap_max_alloc\":200000,\"psram_size\":8388608,\
         \"free_psram\":8000000,\"psram_max_alloc\":4000000,\"free_heap\":250000,\
         \"heap_free_8bit\":250000,\"heap_free_32bit\":260000,\"heap_largest_free_block\":180000,\
         \"up_time\":\"5000\",\"uptime_us\":5000000,\"sketch_size\":900000,\"free_sketch\":2000000,\
         \"arduino_core_version\":\"3.0.0\",\"sdk_version\":\"v5.1.4\",\"idf_version\":\"v5.1.4\",\
         \"sketch_md5\":\"abc123\",\"chip_features\":[\"WIFI_BGN\",\"BLE\"],\
         \"reset_reason_code\":1,\"reset_reason\":\"POWERON\",\"temperature_c\":42.50}"
    );
}

#[test]
fn espinfo_omits_absent_optionals() {
    let features: [&str; 0] = [];
    let info = EspInfo {
        chip_model: "ESP32",
        cores_count: 2,
        chip_revision: 3,
        cpu_frequency: 160,
        cycle_count: 1,
        mac: 2,
        flash_mode: "DIO",
        flash_chip_size: 4194304,
        flash_chip_speed: 40000000,
        heap_size: 100,
        heap_max_alloc: 90,
        psram_size: 0,
        free_psram: 0,
        psram_max_alloc: 0,
        free_heap: 80,
        heap_free_8bit: 80,
        heap_free_32bit: 85,
        heap_largest_free_block: 70,
        up_time: 10,
        uptime_us: 10000,
        sketch_size: 500,
        free_sketch: 600,
        arduino_core_version: "3.0.0",
        sdk_version: "v5.1.4",
        idf_version: None,
        sketch_md5: None,
        chip_features: &features,
        reset_reason_code: 0,
        reset_reason: "UNKNOWN",
        temperature_c: None,
    };
    assert_eq!(
        espinfo_body(&info).as_str(),
        "{\"chip_model\":\"ESP32\",\"cores_count\":\"2\",\"chip_revision\":\"3\",\
         \"cpu_frequency\":\"160\",\"cycle_count\":1,\"mac\":\"2\",\"flash_mode\":\"DIO\",\
         \"flash_chip_size\":4194304,\"flash_chip_speed\":40000000,\"heap_size\":100,\
         \"heap_max_alloc\":90,\"psram_size\":0,\"free_psram\":0,\"psram_max_alloc\":0,\
         \"free_heap\":80,\"heap_free_8bit\":80,\"heap_free_32bit\":85,\
         \"heap_largest_free_block\":70,\"up_time\":\"10\",\"uptime_us\":10000,\
         \"sketch_size\":500,\"free_sketch\":600,\"arduino_core_version\":\"3.0.0\",\
         \"sdk_version\":\"v5.1.4\",\"chip_features\":[],\"reset_reason_code\":0,\
         \"reset_reason\":\"UNKNOWN\"}"
    );
}

#[test]
fn free_psram_repro_bug_reproduces_malformed_header_output() {
    assert_eq!(
        free_psram_body_variant(100, Some(1536), true).as_str(),
        "{\"sampling\": \"100\"}1.50 KB\"}"
    );
    assert_eq!(
        free_psram_body_variant(100, None, true).as_str(),
        "{\"sampling\": \"100\"}No PSRAM\"}"
    );
}

#[test]
fn free_psram_corrected_form_matches_default() {
    assert_eq!(
        free_psram_body_variant(100, Some(1536), false).as_str(),
        free_psram_body(100, Some(1536)).as_str()
    );
    assert_eq!(
        free_psram_body_variant(100, None, false).as_str(),
        free_psram_body(100, None).as_str()
    );
}

#[test]
fn index_page_is_clipped_to_its_buffer() {
    let long = "x".repeat(2000);
    let html = index_html(&long, 80, "0 B");
    assert_eq!(html.as_str().len(), 1024);
    assert!(html.as_str().ends_with("xxx"));
}

#[test]
fn index_page_fits_at_the_limits() {
    let html = index_html("255.255.255.255", 65535, "4095.99999999 MB");
    assert!(html.as_str().ends_with("</body></html>"));
}

#[test]
fn release_is_clipped_to_its_buffer() {
    let long = "9".repeat(100);
    let body = release_body(&long);
    assert_eq!(body.as_str().len(), 64);
    assert!(body.as_str().starts_with("{\"release\": \"999"));
    let kept = "9".repeat(32);
    assert_eq!(
        release_body(&kept).as_str(),
        format!("{{\"release\": \"{}\"}}", kept)
    );
}

#[test]
fn bytes_are_rounded_to_the_nearest_hundredth() {
    // 1029 / 1024 = 1.00488.., 1030 / 1024 = 1.00585..
    assert_eq!(format_bytes(1029).as_str(), "1.00 KB");
    assert_eq!(format_bytes(1030).as_str(), "1.01 KB");
    assert_eq!(format_bytes(1_048_575).as_str(), "1024.00 KB");
    assert_eq!(format_bytes(1_572_864).as_str(), "1.50 MB");
    assert_eq!(format_bytes(u32::MAX).as_str(), "4096.00 MB");
}

#[test]
fn two_decimals_carry_into_the_whole_part() {
    assert_eq!(esp_gpio_viewer::protocol::to_two_decimals(1, 3), (0, 33));
    assert_eq!(esp_gpio_viewer::protocol::to_two_decimals(2, 3), (0, 67));
    assert_eq!(esp_gpio_viewer::protocol::to_two_decimals(1, 200), (0, 1));
    assert_eq!(esp_gpio_viewer::protocol::to_two_decimals(1999, 1000), (2, 0));
}

#[test]
fn sampling_holds_the_largest_interval() {
    assert_eq!(sampling_body(u32::MAX).as_str(), "{\"sampling\": \"4294967295\"}");
    assert_eq!(
        free_psram_body(u32::MAX, Some(u32::MAX)).as_str(),
        "{\"sampling\": \"4294967295 4096.00 MB\"}"
    );
}

#[test]
fn pinmodes_hold_a_full_registry() {
    let pins: Vec<(u8, u32)> = (0..48).map(|i| (200 + i as u8, 0xC0)).collect();
    let body = pinmodes_body(&pins);
    assert!(body.as_str().starts_with("[{\"pin\":\"200\",\"mode\":\"192\"},"));
    assert!(body.as_str().ends_with("{\"pin\":\"247\",\"mode\":\"192\"}]"));
}

#[test]
fn gpio_state_holds_a_full_registry() {
    let changes: Vec<(u8, u32, u32, u8)> = (0..48)
        .map(|i| (50 + i as u8, 256, 0x0fff_ffff, 1))
        .collect();
    let body = gpio_state_body(&changes);
    assert!(body
        .as_str()
        .ends_with("\"97\": {\"s\": 256, \"v\": 268435455, \"t\": 1}}"));
    assert!(!body.as_str().contains('\n'));
}

#[test]
fn gpio_state_is_clipped_to_its_buffer() {
    let changes: Vec<(u8, u32, u32, u8)> = (0..48)
        .map(|i| (200 + i as u8, 256, u32::MAX, 1))
        .collect();
    let body = gpio_state_body(&changes);
    assert_eq!(body.as_str().len(), 2048);
}

#[test]
fn partition_address_and_size_at_their_limits() {
    let partitions = [PartitionInfo {
        label: "",
        ptype: 255,
        subtype: 255,
        address: u32::MAX,
        size: u32::MAX,
    }];
    assert_eq!(
        partition_body(&partitions).as_str(),
        "[{\"label\":\"\",\"type\":255,\"subtype\":255,\"address\":\"0xffffffff\",\"size\":4294967295}]"
    );
    let partitions = [PartitionInfo {
        label: "a",
        ptype: 0,
        subtype: 0,
        address: 0,
        size: 0,
    }];
    assert_eq!(
        partition_body(&partitions).as_str(),
        "[{\"label\":\"a\",\"type\":0,\"subtype\":0,\"address\":\"0x0\",\"size\":0}]"
    );
}

#[test]
fn twenty_one_partitions_are_served_in_full() {
    let partitions = [PartitionInfo {
        label: "sixteen_bytes_xx",
        ptype: 255,
        subtype: 255,
        address: u32::MAX,
        size: u32::MAX,
    }; 21];
    let body = partition_body(&partitions);
    assert!(body.as_str().ends_with("4294967295}]"));
    assert_eq!(body.as_str().matches("sixteen").count(), 21);
}

#[test]
fn espinfo_leaves_out_an_empty_md5() {
    let mut info = esp_gpio_viewer::hwinfo::espinfo(1, None);
    info.sketch_md5 = Some("");
    info.reset_reason_code = -7;
    info.temperature_c = Some("-3.25");
    let body = espinfo_body(&info);
    assert!(!body.as_str().contains("sketch_md5"));
    assert!(body.as_str().contains("\"reset_reason_code\":-7,"));
    assert!(body.as_str().ends_with("\"temperature_c\":-3.25}"));
    info.temperature_c = Some("123456789012345678.25");
    assert!(espinfo_body(&info)
        .as_str()
        .ends_with("\"temperature_c\":1234567890123456}"));
}

#[test]
fn espinfo_leaves_out_an_empty_idf_version() {
    let mut info = esp_gpio_viewer::hwinfo::espinfo(1000, None);
    info.sdk_version = "v5.1.4";
    info.idf_version = Some("");
    let body = espinfo_body(&info);
    assert!(body.as_str().ends_with(
        "\"sdk_version\":\"v5.1.4\",\"chip_features\":[],\"reset_reason_code\":0,\"reset_reason\":\"UNKNOWN\"}"
    ));
    info.idf_version = Some("v5");
    let body = espinfo_body(&info);
    assert!(body
        .as_str()
        .contains("\"sdk_version\":\"v5.1.4\",\"idf_version\":\"v5\",\"chip_features\":[]"));
}

#[test]
fn espinfo_leaves_out_an_empty_temperature() {
    let mut info = esp_gpio_viewer::hwinfo::espinfo(1, None);
    info.temperature_c = Some("");
    let body = espinfo_body(&info);
    assert!(body.as_str().ends_with("\"reset_reason\":\"UNKNOWN\"}"));
}
