[package]
name = "tunelock"
version = "0.1.0"
edition = "2021"
publish = false

[dependencies]
anyhow = "1"
cpal = "0.15"
crossbeam-channel = "0.5"
crossbeam-queue = "0.3"
ebur128-stream = "*"
lofty = "0.21"
ndarray = "0.16"
reqwest = { version = "0.12", default-features = false, features = ["json"] }
rtrb = "0.3"
rubato = "0.16"
rustfft = "6"
serde = { version = "1", features = ["derive"] }
serde_json = "1"
signalsmith-stretch = "*"
symphonia = "0.5"
