[package]
name = "geoip_service"
version = "0.1.0"
edition = "2021"
publish = false

[dependencies]
chrono = "=0.4.45"
httpdate = "=1.0.3"
constant_time_eq = "=0.6.1"
maxminddb = { version = "=0.26.0", features = ["mmap"] }
axum = "=0.8.9"
axum-extra = { version = "=0.12.6", features = ["typed-header"] }
tokio = { version = "=1.53.2", features = ["rt-multi-thread", "macros", "net", "fs", "io-util", "time", "process", "sync"] }
reqwest = { version = "=0.13.5", default-features = false, features = ["json", "form"] }
flate2 = "=1.1.10"
tar = "=0.4.46"
tempfile = "=3.27.0"
arc-swap = "=1.9.2"
im = "=15.1.0"
serde = { version = "=1.0.229", features = ["derive"] }
serde_json = "=1.0.151"
log = "=0.4.34"
env_logger = "=0.11.11"
dotenvy = "=0.15.7"
which = "=8.0.6"
futures = "=0.3.34"
thiserror = "=2.0.21"
handlebars = "=6.4.4"
tower-http = { version = "=0.7.1", features = ["fs"] }
