[package]
name = "kernel"
version = "0.1.0"
edition = "2021"
publish = false

[dependencies]
embedded-sdmmc = "0.7"
embedded-hal = "1"
embedded-hal-bus = "*"
nb = "1"
critical-section = "1"
static_cell = "2"
embassy-executor = "*"
esp-hal = "*"
esp-rtos = "*"
esp-bootloader-esp-idf = "*"
