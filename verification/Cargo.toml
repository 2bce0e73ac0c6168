[package]
name = "oxidite"
version = "0.1.0"
edition = "2021"
publish = false

[dependencies]
regex = "=1.13.1"
mime_guess = "=2.0.5"
serde = { version = "=1.0.229", features = ["derive"] }
serde_json = "=1.0.154"
toml = "=1.1.8"
clap = { version = "=4.6.7", features = ["derive"] }
tokio = { version = "=1.54.1", features = ["rt-multi-thread", "macros", "net", "time", "sync", "fs", "process", "io-util"] }
chrono = "=0.4.45"
dotenv = "=0.15.0"
num_cpus = "=1.17.0"
colored = "=3.1.1"
syn = { version = "=2.0.119", features = ["full"] }
quote = "=1.0.47"
hyper = { version = "=1.12.0", features = ["server", "http1", "http2"] }
hyper-util = { version = "=0.1.21", features = ["tokio", "server"] }
http = "=1.5.0"
http-body-util = "=0.1.5"
bytes = "=1.12.1"
tower-service = "=0.3.3"
uuid = { version = "=1.29.0", features = ["v4"] }
thiserror = "=2.0.21"
nix = { version = "=0.31.3", features = ["signal"] }
sqlx = { version = "0.8", default-features = false, features = ["runtime-tokio", "any", "sqlite", "postgres", "mysql"] }
reqwest = { version = "0.12", default-features = false }
notify = "*"
dialoguer = "*"
serde_urlencoded = "0.7"
