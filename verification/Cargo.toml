[package]
name = "meter_node"
version = "0.1.0"
edition = "2021"
publish = false

[dependencies]
bincode = { version = "=2.0.1", default-features = false, features = ["derive"] }
const-hex = { version = "=1.19.3", default-features = false }
defmt = "=0.3.101"
defmt-rtt = "=0.4.2"
embassy-executor = { version = "=0.6.3", features = ["executor-thread", "integrated-timers", "defmt"] }
embassy-sync = { version = "=0.6.2", features = ["defmt"] }
embassy-time = { version = "=0.3.2", features = ["defmt", "defmt-timestamp-uptime"] }
embedded-hal-bus = { version = "=0.2.0", features = ["async"] }
embedded-io-async = "=0.6.1"
lora-phy = { version = "=3.0.1", features = ["lorawan-radio"] }
lorawan-device = { version = "=0.12.2", default-features = false, features = ["embassy-time", "default-crypto", "defmt", "region-eu868"] }
micromath = "=2.1.0"
panic-probe = { version = "=0.3.2", features = ["print-defmt"] }
static_cell = "=2.1.1"
