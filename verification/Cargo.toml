[package]
name = "pass_it_on"
version = "0.1.0"
edition = "2021"
publish = false

[dependencies]
async-trait = "*"
axum = "*"
axum-server = { version = "*", features = ["tls-rustls"] }
blake3 = "*"
clap = { version = "*", features = ["derive"] }
directories = "*"
mail-send = "*"
nix = { version = "*", features = ["fs"] }
reqwest = { version = "*", default-features = false, features = ["json", "rustls-tls"] }
rustls = "*"
serde = { version = "*", features = ["derive"] }
serde_json = "*"
thiserror = "*"
tokio = { version = "*", features = ["full"] }
toml = "*"
tracing = "*"
tracing-subscriber = "*"
url = "*"
