[package]
name = "agentcord"
version = "0.1.0"
edition = "2021"
publish = false

[dependencies]
agent-client-protocol = { version = "=1.3.0", features = ["unstable_elicitation"] }
clap = { version = "=4.6.7", default-features = false, features = ["derive", "env", "help", "std", "usage"] }
color-eyre = { version = "=0.6.5", default-features = false }
config = { version = "=0.15.27", default-features = false, features = ["toml"] }
dirs = "=6.0.0"
humantime = "=2.4.0"
jiff = { version = "=0.2.39", default-features = false, features = ["std"] }
poise = { version = "=0.7.1", default-features = false, features = ["cache", "chrono"] }
serde = { version = "=1.0.229", features = ["derive"] }
serde_json = { version = "=1.0.154", features = ["preserve_order"] }
serenity = { version = "=0.12.5", default-features = false, features = ["builder", "cache", "client", "collector", "framework", "gateway", "http", "model", "rustls_backend", "utils"] }
text-splitter = { version = "=0.33.1", features = ["markdown"] }
thiserror = "=2.0.21"
toasty = { version = "=0.11.0", default-features = false, features = ["sqlite"] }
tokio = { version = "=1.54.1", default-features = false, features = ["fs", "io-util", "macros", "net", "process", "rt-multi-thread", "sync", "time"] }
tracing = { version = "=0.1.44", default-features = false, features = ["std", "attributes"] }
tracing-subscriber = { version = "=0.3.23", default-features = false, features = ["env-filter", "fmt"] }
