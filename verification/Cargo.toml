[package]
name = "stm32_i2c"
version = "0.1.0"
edition = "2021"
publish = false

[dependencies]
stm32-metapac = { version = "*", features = ["stm32g071rb"] }
cortex-m = "0.7"
critical-section = "1"
embassy-embedded-hal = "*"
embassy-hal-internal = "*"
embedded-hal = "1"
futures-util = { version = "0.3", default-features = false }
