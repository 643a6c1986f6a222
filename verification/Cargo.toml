[package]
name = "strokers"
version = "0.1.0"
edition = "2021"
publish = false

[dependencies]
async-trait = "=0.1.92"
dirs = "=7.0.0"
eyre = "=0.6.14"
flume = "=0.12.0"
futures-util = { version = "=0.3.34", features = ["sink"] }
mpv-client = "=0.6.2"
serde = { version = "=1.0.229", features = ["derive"] }
serde_json = "=1.0.151"
serde_qs = "=1.1.3"
serial2-tokio = "=0.1.25"
thiserror = "=2.0.21"
tokio = { version = "=1.53.2", features = ["fs", "io-util", "macros", "rt", "time", "sync"] }
tokio-stream = "=0.1.19"
tokio-util = { version = "=0.7.19", features = ["codec"] }
toml = "=1.1.6"
tracing = "=0.1.44"
tracing-subscriber = { version = "=0.3.23", features = ["env-filter", "fmt"] }
