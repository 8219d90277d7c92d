[package]
name = "redclaw"
version = "0.1.0"
edition = "2021"
publish = false

[dependencies]
anyhow = "*"
async-imap = { version = "*", default-features = false, features = ["runtime-tokio"] }
async-trait = "*"
chrono = "*"
console = "*"
directories = "*"
futures-util = "*"
lettre = { version = "*", default-features = false, features = ["builder", "hostname", "pool", "rustls-tls", "smtp-transport"] }
mail-parser = "*"
reqwest = { version = "*", default-features = false, features = ["json", "rustls-tls"] }
rustls = "*"
rustls-pki-types = "*"
serde = { version = "*", features = ["derive"] }
serde_json = "*"
tokio = { version = "*", features = ["full"] }
tokio-rustls = "*"
toml = "*"
uuid = { version = "*", features = ["v4"] }
webpki-roots = "*"
