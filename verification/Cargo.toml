[package]
name = "anonet"
version = "0.1.0"
edition = "2021"
publish = false

[dependencies]
anyhow = { version = "1", default-features = false, features = ["std"] }
clap = { version = "4", default-features = false, features = ["derive", "std", "help", "usage", "error-context"] }
crossterm = { version = "0.29", default-features = false, features = ["event-stream", "events", "bracketed-paste"] }
dirs = "6"
futures-util = "0.3"
tempfile = { version = "3", default-features = false }
thiserror = "2"
tokio = { version = "1", features = ["full"] }
tor-guardmgr = { version = "=0.33.0", default-features = false, features = ["bridge-client", "pt-client"] }
tor-linkspec = { version = "=0.33.0", default-features = false, features = ["pt-client"] }
tracing = { version = "0.1", default-features = false, features = ["std"] }
tracing-subscriber = { version = "0.3", features = ["env-filter"] }
