[package]
name = "netdisco"
version = "0.1.0"
edition = "2021"
publish = false

[dependencies]
ipnetwork = "0.20"
bcrypt = "0.15"
rand = "0.8"
chrono = { version = "0.4", features = ["serde"] }
serde = { version = "1", features = ["derive"] }
serde_json = "1"
serde_yaml = "0.9"
anyhow = "1"
tokio = { version = "1", features = ["rt-multi-thread", "macros", "signal", "time", "process"] }
tracing = "0.1"
tracing-subscriber = { version = "0.3", features = ["env-filter"] }
clap = { version = "4", features = ["derive"] }
dirs = "5"
dns-lookup = "2"
actix-web = { version = "4", default-features = false, features = ["macros", "cookies", "compress-gzip"] }
actix-session = { version = "0.9", features = ["cookie-session"] }
actix-files = "0.6"
sqlx = { version = "0.7", default-features = false, features = ["runtime-tokio", "postgres", "chrono", "ipnetwork", "json", "macros", "migrate"] }
