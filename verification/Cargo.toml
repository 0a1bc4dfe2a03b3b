[package]
name = "callme"
version = "0.1.0"
edition = "2021"
publish = false

[dependencies]
anyhow = "1"
arboard = { version = "3", default-features = false }
async-channel = "=2.5.0"
bytes = "=1.12.1"
clap = { version = "4", features = ["derive"] }
cpal = "=0.15.3"
dasp_sample = "=0.11.0"
dialoguer = { version = "0.11", default-features = false }
egui = { version = "0.31", default-features = false, features = ["default_fonts"] }
fixed-resample = "=0.7.1"
iroh-base = { version = "=0.33.0", default-features = false, features = ["key"] }
n0-future = "0.1"
opus = "0.3"
rand = "0.8"
ringbuf = "=0.4.8"
serde = { version = "1", features = ["derive"] }
tokio = { version = "=1.54.1", features = ["sync", "rt-multi-thread", "macros", "time", "signal"] }
tracing = "0.1"
tracing-subscriber = { version = "0.3", default-features = false, features = ["fmt"] }
web-audio-api = { version = "1", default-features = false }
webrtc-audio-processing = { version = "0.5", default-features = false }
