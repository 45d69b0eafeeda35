[package]
name = "ass_code"
version = "0.1.0"
edition = "2021"
publish = false

[dependencies]
embedded-graphics = "0.8"
ringbuffer = "0.15"
log = "0.4"
critical-section = "1"
embedded-io = "0.6"
embedded-storage = "0.3"
embassy-sync = "0.6"
embassy-time = "0.4"
embassy-executor = "0.7"
esp-hal = "0.23"
esp-hal-embassy = "0.6"
esp-storage = "0.4"
esp-println = "0.13"
esp-alloc = "0.6"
esp-backtrace = "0.15"
