[package]
name = "esp-gpio-viewer"
version = "0.1.0"
edition = "2021"
publish = false

[dependencies]
heapless = "=0.8.0"
embassy-net = { version = "=0.9.1", features = ["tcp", "dhcpv4", "medium-ethernet"] }
embassy-sync = "=0.8.0"
embassy-time = "=0.5.1"
embedded-io-async = "=0.7.0"
embedded-storage = "=0.3.2"
esp-bootloader-esp-idf = { version = "=0.4.0", default-features = false, features = ["esp32"] }
esp-hal = { version = "=1.0.0", default-features = false, features = ["esp32", "unstable"] }
