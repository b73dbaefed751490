[package]
name = "cuber"
version = "0.1.0"
edition = "2021"
publish = false

[dependencies]
hematite-nbt = "*"
tokio = { version = "1", features = ["net", "io-util", "rt-multi-thread", "macros"] }
