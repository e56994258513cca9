[package]
name = "ospi"
version = "0.1.0"
edition = "2021"
publish = false

[dependencies]
stm32-metapac = { version = "*", features = ["stm32u575zi"] }
embassy-embedded-hal = "*"
embassy-hal-internal = "*"
