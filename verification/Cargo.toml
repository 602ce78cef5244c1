[package]
name = "esp_rf_ook2"
version = "0.1.0"
edition = "2021"
publish = false

[dependencies]
embassy-executor = "=0.9.1"
embassy-futures = "=0.1.2"
embassy-net = { version = "=0.7.1", features = ["dhcpv4", "dhcpv4-hostname", "dns", "medium-ethernet", "proto-ipv4", "tcp", "udp"] }
embassy-sync = "=0.7.2"
embassy-time = "=0.5.1"
esp-alloc = "=0.9.0"
esp-backtrace = "=0.18.1"
esp-bootloader-esp-idf = "=0.4.0"
esp-hal = "=1.0.0"
esp-println = "=0.16.1"
esp-radio = "=0.17.0"
esp-rtos = "=0.2.0"
heapless = "=0.8.0"
jiff = { version = "=0.2.38", default-features = false, features = ["std"] }
log = "=0.4.34"
rust-mqtt = { version = "=0.3.1", default-features = false }
sntpc = { version = "=0.5.2", default-features = false, features = ["embassy-socket"] }
static_cell = "=2.1.1"
