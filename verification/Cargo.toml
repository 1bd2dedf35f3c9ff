[package]
name = "iherb_cli"
version = "0.1.0"
edition = "2021"
publish = false

[dependencies]
anyhow = "*"
chromiumoxide = { version = "*", default-features = false, features = ["tokio-runtime"] }
clap = { version = "*", features = ["derive"] }
ctrlc = "*"
dirs = "*"
futures = "*"
hex = "*"
reqwest = { version = "*", default-features = false, features = ["rustls-tls"] }
scraper = "*"
serde = { version = "*", features = ["derive"] }
serde_json = "*"
sha2 = "*"
thiserror = "*"
tokio = { version = "*", features = ["full"] }
toml = "*"
tracing = "*"
tracing-subscriber = { version = "*", features = ["env-filter"] }
zip = { version = "*", default-features = false, features = ["deflate"] }
