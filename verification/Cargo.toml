[package]
name = "xiao_esp32s3_mic"
version = "0.1.0"
edition = "2021"
publish = false

[dependencies]
nb = "=1.1.0"
esp-hal = { version = "=1.0.0", features = ["esp32s3", "unstable"] }
esp32s3 = "0.34"
esp-backtrace = { version = "0.18", features = ["esp32s3", "panic-handler", "println"] }
esp-bootloader-esp-idf = { version = "0.4", features = ["esp32s3"] }
esp-println = { version = "0.16", features = ["esp32s3"] }
