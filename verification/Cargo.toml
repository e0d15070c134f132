[package]
name = "voxclaw"
version = "0.1.0"
edition = "2021"
publish = false

[dependencies]
arboard = { version = "=3.7.0", default-features = false }
bzip2 = "=0.6.1"
chrono = "=0.4.45"
futures-util = "=0.3.34"
glob-match = "=0.2.1"
hound = "=3.5.1"
ort = { version = "=2.0.0-rc.15", default-features = false, features = ["directml", "load-dynamic"] }
regex = "=1.13.1"
reqwest = { version = "=0.12.28", default-features = false, features = ["json", "stream"] }
rubato = "=0.16.2"
rustfft = "=6.4.1"
serde = { version = "=1.0.229", features = ["derive"] }
serde_json = "=1.0.154"
tar = "=0.4.46"
tokio = { version = "=1.54.1", features = ["fs", "macros", "process", "rt-multi-thread", "sync", "time"] }
tokio-util = "=0.7.20"
urlencoding = "=2.1.3"
uuid = { version = "=1.29.0", features = ["v4"] }
