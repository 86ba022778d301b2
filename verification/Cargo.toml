[package]
name = "inclinometer"
version = "0.1.0"
edition = "2021"
publish = false

[dependencies]
defmt-rtt = "=1.3.1"
embassy-executor = { version = "=0.9.1", features = ["arch-std", "executor-thread"] }
embassy-nrf = { version = "=0.11.0", features = ["nrf52840", "time-driver-rtc1", "gpiote"] }
embassy-time = { version = "=0.5.1", features = ["tick-hz-32_768"] }
embedded-graphics = "=0.7.1"
embedded-hal = "=0.2.7"
heapless = "=0.8.0"
panic-probe = "=1.0.0"
sharp-memory-display = "=0.3.0"
