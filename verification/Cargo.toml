[package]
name = "apogee"
version = "0.1.0"
edition = "2021"
publish = false

[dependencies]
url = "=2.5.8"
container-probe = "=0.2.1"
hls-runtime = "=0.10.0"
transmux = "=0.28.0"
broadcast-common = "=10.0.0"
rtrb = "=0.3.6"
serde = { version = "=1.0.229", features = ["derive"] }
serde_json = "=1.0.154"
log = "=0.4.35"
tokio = { version = "=1.54.1", features = ["rt-multi-thread", "macros", "time", "sync", "net", "io-util"] }
tokio-util = "=0.7.20"
bytes = "=1.12.1"
reqwest = { version = "=0.12.28", default-features = false, features = ["rustls-tls"] }
rustfft = "=6.4.1"
rubato = "=5.0.1"
symphonia = { version = "=0.6.1", features = ["aac", "mp3"] }
time = { version = "0.3", features = ["formatting"] }
