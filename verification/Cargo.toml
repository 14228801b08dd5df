[package]
name = "gdvm"
version = "0.1.0"
edition = "2021"
publish = false

[dependencies]
regex = "1"
semver = "1"
sha2 = "0.10"
anyhow = "1"
clap = "4"
serde = { version = "1", features = ["derive"] }
serde_json = "1"
toml = "0.8"
zip = { version = "2", default-features = false, features = ["deflate"] }
directories = "5"
reqwest = { version = "0.12", default-features = false, features = ["blocking", "json", "rustls-tls"] }
daemonize = "0.5"
rpassword = "7"
