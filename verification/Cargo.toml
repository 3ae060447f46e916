[package]
name = "radiotrope"
version = "0.1.0"
edition = "2021"
publish = false

[dependencies]
crossbeam-channel = "=0.5.17"
m3u8-rs = "=6.0.1"
mpeg2ts = "=0.6.1"
reqwest = { version = "=0.12.28", default-features = false, features = ["blocking", "rustls-tls"] }
rodio = { version = "=0.22.2", default-features = false, features = ["playback"] }
rustfft = "=6.4.1"
symphonia = { version = "=0.5.5", features = ["all"] }
symphonia-adapter-fdk-aac = "=0.1.3"
symphonia-adapter-libopus = "=0.2.9"
symphonia-core = "=0.5.5"
thiserror = "=2.0.21"
