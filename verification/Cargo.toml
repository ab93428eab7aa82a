[package]
name = "bitbang_dvi"
version = "0.1.0"
edition = "2021"
publish = false

[dependencies]
heapless = "0.8"
defmt = "*"
log = "0.4"
esp-hal = { version = "*", features = ["esp32s3", "unstable"] }
esp-backtrace = { version = "*", features = ["esp32s3"] }
esp-println = { version = "*", features = ["esp32s3"] }
