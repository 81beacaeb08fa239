[package]
name = "libereco"
version = "0.1.0"
edition = "2021"
publish = false

[dependencies]
anyhow = "1"
base64 = "0.22"
rtrb = "0.3"
symphonia = "*"
audio_samples = { version = "*", default-features = false }
i24 = "*"
bytes = "1"
bytemuck = "1"
hound = "3"
rubato = "*"
cpal = "*"
pipewire = "*"
libspa-sys = "*"
tokio = { version = "1", features = ["sync", "rt", "macros", "time"] }
tokio-stream = "0.1"
tokio-util = "0.7"
futures-util = { version = "0.3", features = ["sink"] }
