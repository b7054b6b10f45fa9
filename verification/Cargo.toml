[package]
name = "wifi_ap"
version = "0.1.0"
edition = "2021"
publish = false

[dependencies]
embassy-executor = "*"
embassy-net = { version = "*", features = ["proto-ipv4", "medium-ethernet", "tcp", "udp", "dhcpv4"] }
embassy-sync = "*"
embassy-time = "*"
esp-alloc = "*"
esp-backtrace = "*"
esp-bootloader-esp-idf = "*"
esp-hal = "=1.0.0"
esp-hal-dhcp-server = "*"
esp-metadata-generated = { version = "*", features = ["esp32c3"] }
esp-println = "*"
esp-radio = "=0.16.0"
esp-rtos = "*"
log = "0.4"
picoserve = { version = "=0.20.1", features = ["embassy", "json"] }
serde = { version = "1", default-features = false, features = ["derive"] }
static_cell = "2"
