[package]
name = "dockcron"
version = "0.1.0"
edition = "2021"
publish = false

[dependencies]
anyhow = "1"
bollard = "*"
chrono = "0.4"
clap = { version = "4", features = ["derive", "env"] }
cron = "*"
futures = "0.3"
humantime = "2"
shlex = "1"
tokio = { version = "1", features = ["macros", "rt-multi-thread", "signal", "sync", "time"] }
tracing = "0.1"
tracing-subscriber = { version = "0.3", features = ["env-filter"] }

[dev-dependencies]
regex = "1"
