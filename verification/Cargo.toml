[package]
name = "rusic"
version = "0.1.0"
edition = "2021"
publish = false

[dependencies]
percent-encoding = "=2.3.2"
rand = "=0.8.8"
uuid = { version = "=1.29.0", features = ["v4"] }
serde = { version = "=1.0.229", features = ["derive"] }
serde_json = "=1.0.154"
directories = "=5.0.1"
base64 = "=0.22.1"
http = "=1.5.0"
reqwest = { version = "=0.12.28", default-features = false, features = ["json"] }
jellyfin-sdk-rust = "=0.1.2"
symphonia = "=0.5.5"
rb = "=0.4.1"
cpal = "=0.15.3"
web-sys = { version = "=0.3.107", features = ["Window", "Storage", "HtmlAudioElement", "HtmlMediaElement", "MediaError"] }
web-time = "=1.1.0"
tokio = { version = "=1.54.1", features = ["rt", "time", "sync"] }
