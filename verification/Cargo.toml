[package]
name = "pico_weather_clock"
version = "0.1.0"
edition = "2021"
publish = false

[dependencies]
embedded-graphics = "=0.8.2"
u8g2-fonts = "=0.8.0"
heapless = { version = "=0.8.0", features = ["serde"] }
serde = { version = "=1.0.229", default-features = false, features = ["derive"] }
serde-json-core = "=0.6.0"
micromath = "=2.1.0"
embassy-rp = { version = "=0.10.0", features = ["rp2040", "time-driver", "critical-section-impl"] }
embassy-executor = { version = "=0.9.1", features = ["arch-std", "executor-thread"] }
embassy-time = "=0.5.1"
embassy-sync = "=0.8.0"
embassy-net = { version = "=0.9.1", features = ["tcp", "udp", "dns", "dhcpv4"] }
cyw43 = "=0.7.0"
cyw43-pio = "=0.10.0"
reqwless = "=0.13.0"
rand = { version = "=0.8.8", default-features = false }
static_cell = "=2.1.1"
