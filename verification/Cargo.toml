[package]
name = "hive"
version = "0.1.0"
edition = "2021"
publish = false

[dependencies]
sha2 = "=0.10.9"
clap = { version = "=4.6.7", features = ["derive"] }
itertools = "=0.13.0"
minijinja = { version = "=2.24.0", features = ["loader"] }
reqwest = "=0.12.28"
rpassword = "=7.5.4"
serde = { version = "=1.0.229", features = ["derive"] }
serde_json = "=1.0.154"
tokio = { version = "=1.54.1", features = ["rt-multi-thread", "time"] }
toml = "=0.8.23"

[dev-dependencies]
regex = "=1.13.1"
