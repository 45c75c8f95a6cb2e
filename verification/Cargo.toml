[package]
name = "prefix_monitor"
version = "0.1.0"
edition = "2021"
publish = false

[dependencies]
clap = { version = "*", default-features = false, features = ["std", "derive", "env", "help"] }
tokio = { version = "*", features = ["macros", "rt-multi-thread", "time"] }
tracing = "*"
tracing-subscriber = { version = "*", default-features = false, features = ["env-filter", "fmt"] }
