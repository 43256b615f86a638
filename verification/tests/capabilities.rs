use esp_gpio_viewer::capabilities::{
    Chip, ESP32S3_ADC_PINS, ESP32S3_TOUCH_PINS, ESP32_ADC_PINS, ESP32_TOUCH_PINS,
};
use esp_gpio_viewer::protocol::pinfunctions_body;

#[test]
fn esp32_lists_have_expected_cardinality() {
    assert_eq!(ESP32_ADC_PINS.len(), 18);
    assert_eq!(ESP32_TOUCH_PINS.len(), 10);
}

#[test]
fn esp32s3_lists_have_expected_cardinality() {
    assert_eq!(ESP32S3_ADC_PINS.len(), 20);
    assert_eq!(ESP32S3_TOUCH_PINS.len(), 14);
}

#[test]
fn lists_are_ascending_and_deduplicated() {
    for list in [
        &ESP32_ADC_PINS[..],
        &ESP32_TOUCH_PINS[..],
        &ESP32S3_ADC_PINS[..],
        &ESP32S3_TOUCH_PINS[..],
    ] {
        for window in list.windows(2) {
            assert!(window[0] < window[1], "list must be strictly ascending");
        }
    }
}

#[test]
fn esp32_capabilities_serialize_through_pinfunctions_body() {
    let body = pinfunctions_body(&ESP32_ADC_PINS, &ESP32_TOUCH_PINS);
    assert_eq!(
        body.as_str(),
        "{\"boardpinsfunction\":[\
         {\"name\":\"ADC\", \"functions\":[\
         {\"function\":\"ADC\",\"pin\":0},{\"function\":\"ADC\",\"pin\":2},\
         {\"function\":\"ADC\",\"pin\":4},{\"function\":\"ADC\",\"pin\":12},\
         {\"function\":\"ADC\",\"pin\":13},{\"function\":\"ADC\",\"pin\":14},\
         {\"function\":\"ADC\",\"pin\":15},{\"function\":\"ADC\",\"pin\":25},\
         {\"function\":\"ADC\",\"pin\":26},{\"function\":\"ADC\",\"pin\":27},\
         {\"function\":\"ADC\",\"pin\":32},{\"function\":\"ADC\",\"pin\":33},\
         {\"function\":\"ADC\",\"pin\":34},{\"function\":\"ADC\",\"pin\":35},\
         {\"function\":\"ADC\",\"pin\":36},{\"function\":\"ADC\",\"pin\":37},\
         {\"function\":\"ADC\",\"pin\":38},{\"function\":\"ADC\",\"pin\":39}]},\
         {\"name\":\"Touch\", \"functions\":[\
         {\"function\":\"Touch\",\"pin\":0},{\"function\":\"Touch\",\"pin\":2},\
         {\"function\":\"Touch\",\"pin\":4},{\"function\":\"Touch\",\"pin\":12},\
         {\"function\":\"Touch\",\"pin\":13},{\"function\":\"Touch\",\"pin\":14},\
         {\"function\":\"Touch\",\"pin\":15},{\"function\":\"Touch\",\"pin\":27},\
         {\"function\":\"Touch\",\"pin\":32},{\"function\":\"Touch\",\"pin\":33}]}]}"
    );
}

#[test]
fn chips_report_their_own_lists() {
    assert_eq!(Chip::Esp32.adc_pins(), &ESP32_ADC_PINS[..]);
    assert_eq!(Chip::Esp32.touch_pins(), &ESP32_TOUCH_PINS[..]);
    assert_eq!(Chip::Esp32S3.adc_pins(), &ESP32S3_ADC_PINS[..]);
    assert_eq!(Chip::Esp32S3.touch_pins(), &ESP32S3_TOUCH_PINS[..]);
    assert_eq!(Chip::Host.adc_pins(), &ESP32_ADC_PINS[..]);
    assert_eq!(Chip::Host.touch_pins(), &ESP32_TOUCH_PINS[..]);
}

#[test]
fn chips_report_what_they_are() {
    assert_eq!(Chip::Esp32.model(), "ESP32");
    assert_eq!(Chip::Esp32S3.model(), "ESP32-S3");
    assert_eq!(Chip::Host.model(), "unknown");
    assert_eq!(Chip::Esp32.cores(), 2);
    assert_eq!(Chip::Esp32S3.cores(), 2);
    assert_eq!(Chip::Host.cores(), 0);
    assert_eq!(Chip::Esp32.features(), &["WiFi", "BLE", "BT"]);
    assert_eq!(Chip::Esp32S3.features(), &["WiFi", "BLE"]);
    assert!(Chip::Host.features().is_empty());
    assert_eq!(Chip::Esp32.max_gpio_pins(), 40);
    assert_eq!(Chip::Esp32S3.max_gpio_pins(), 49);
    assert_eq!(Chip::Host.max_gpio_pins(), 49);
}

#[test]
fn every_chip_serves_its_pin_functions_in_full() {
    for chip in [Chip::Host, Chip::Esp32, Chip::Esp32S3] {
        let body = pinfunctions_body(chip.adc_pins(), chip.touch_pins());
        assert!(body.as_str().ends_with("]}]}"));
        for pin in chip.adc_pins().iter().chain(chip.touch_pins()) {
            assert!(*pin < chip.max_gpio_pins());
        }
    }
}
