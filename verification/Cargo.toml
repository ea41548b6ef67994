[package]
name = "ark_discovery"
version = "0.3.0"
edition = "2021"
publish = false

[dependencies]
discovery-telemetry = "=0.2.0"
fusion-ahrs = "0.6"
fusion-altitude = "=0.1.4"
heapless = "=0.8.0"
libm = "=0.2.16"
nalgebra = "0.34"
anyhow = "1"
clap = { version = "4", features = ["derive"] }
serialport = { version = "4", default-features = false }
cortex-m = { version = "0.7", features = ["critical-section-single-core"] }
panic-halt = "1"
rtic = { version = "2", features = ["thumbv7-backend"] }
rtic-monotonics = { version = "2", features = ["cortex-m-systick"] }
stm32h7xx-hal = { version = "0.16", features = ["stm32h743v", "rt", "usb_hs"] }
usb-device = "0.3"
usbd-serial = "0.2"
