[package]
name = "motor_core"
version = "0.1.0"
edition = "2021"
publish = false

[dependencies]
heapless = "=0.8.0"
rtic-sync = "=1.6.0"
embedded-hal = "=1.0.0"
embedded-hal-nb = "=1.0.0"
fugit = "=0.3.9"
cortex-m = "=0.7.10"
panic-halt = "=0.2.0"
rp-pico = { version = "=0.9.0", default-features = false, features = ["boot2", "rt", "rom-func-cache"] }
rtic = { version = "=2.4.0", features = ["thumbv6-backend"] }
rtic-monotonics = { version = "=2.2.1", features = ["rp2040"] }

[dev-dependencies]
critical-section = { version = "=1.2.0", features = ["std"] }
